use vstd::prelude::*;

verus! {

/// Width of the LCD in pixels.
pub const SCRN_X: usize = 160;

/// Height of the LCD in pixels.
pub const SCRN_Y: usize = 144;

/// Number of bytes in the framebuffer (one colour index per pixel).
pub const FB_LEN: usize = 23040;

/// Size of one switchable ROM bank.
pub const BANK_SIZE: usize = 0x4000;

/// Size of the flat address space.
pub const MEM_SIZE: usize = 0x10000;

/// Serial transfer data.
pub const SB: u16 = 0xFF01;

/// Serial transfer control.
pub const SC: u16 = 0xFF02;

/// Divider register: the high byte of the timer's internal counter.
pub const DIV: u16 = 0xFF04;

/// Timer counter.
pub const TIMA: u16 = 0xFF05;

/// Timer modulo, reloaded into TIMA when it overflows.
pub const TMA: u16 = 0xFF06;

/// Timer control.
pub const TAC: u16 = 0xFF07;

/// Interrupt flag register (pending interrupts).
pub const IF: u16 = 0xFF0F;

/// LCD control.
pub const LCDC: u16 = 0xFF40;

/// Background vertical scroll.
pub const SCY: u16 = 0xFF42;

/// Background horizontal scroll.
pub const SCX: u16 = 0xFF43;

/// Current scanline.
pub const LY: u16 = 0xFF44;

/// OAM DMA source page.
pub const DMA: u16 = 0xFF46;

/// Interrupt enable register.
pub const IE: u16 = 0xFFFF;

/// First byte of object attribute memory.
pub const OAM_START: u16 = 0xFE00;

/// Number of bytes copied by one OAM DMA transfer.
pub const OAM_LEN: u16 = 0xA0;

} // verus!
