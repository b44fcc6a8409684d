//! The machine: CPU, timer and PPU stepped in lockstep over one bus, the
//! serial port, and the breakpoint debugger's decisions.
use vstd::prelude::*;

use vstd::hash_set::HashSetWithView;

use crate::bus::{BusView, LoadError, Ram, image_banks, reset_mem};
use crate::constants::{BANK_SIZE, DIV, IF, LY, MEM_SIZE, SB, SC, TAC, TIMA, TMA};
use crate::cpu::Cpu;
use crate::debugger::DebugCommand;
use crate::isa::{lemma_step_cycles, next_is_unknown, reset_cpu, step};
use crate::ppu::{Mode, Ppu, PpuView, ppu_dot, ppu_run};
use crate::timer::{Timer, timer_advance};

verus! {

broadcast use vstd::std_specs::hash::group_hash_axioms;

pub struct Emulator {
    cpu: Cpu,
    ppu: Ppu,
    ram: Ram,
    timer: Timer,
    breakpoints: HashSetWithView<u16>,
    debug_mode: bool,
    serial: Option<u8>,
}

pub ghost struct EmulatorView {
    pub cpu: Cpu,
    pub ppu: PpuView,
    pub bus: BusView,
    /// The timer's internal 16-bit counter.
    pub timer: u16,
    pub breakpoints: Set<u16>,
    pub debug_mode: bool,
    /// The byte the last tick sent out of the serial port, if any.
    pub serial: Option<u8>,
}

impl View for Emulator {
    type V = EmulatorView;

    closed spec fn view(&self) -> EmulatorView {
        EmulatorView {
            cpu: self.cpu,
            ppu: self.ppu@,
            bus: self.ram@,
            timer: self.timer@,
            breakpoints: self.breakpoints@,
            debug_mode: self.debug_mode,
            serial: self.serial,
        }
    }
}

impl EmulatorView {
    /// Well-formed parts, and DIV showing the high byte of the timer's counter.
    pub open spec fn wf(self) -> bool {
        &&& self.bus.wf()
        &&& self.ppu.wf()
        &&& self.bus.read(DIV) == (self.timer >> 8) as u8
    }
}

/// The serial port after a tick: when SC bit 7 is set, the byte in SB goes
/// out and the bit is cleared.
pub open spec fn serial_out(m: BusView) -> (Option<u8>, BusView) {
    if m.read(SC) & 0x80 != 0 {
        (Some(m.read(SB)), m.write(SC, m.read(SC) ^ 0x80))
    } else {
        (None, m)
    }
}

/// One tick of the machine: the CPU takes `m` machine cycles, then the
/// timer and the PPU advance `4 m` dots, then the serial port is served.
/// Yields the new state and the dots taken. A program's write to DIV is
/// overwritten in the same tick by the counter's high byte; the counter
/// itself is not reset by it.
pub open spec fn machine_step(e: EmulatorView) -> (EmulatorView, u8) {
    let (cpu, m1, mc) = step(e.cpu, e.bus);
    let t = (4 * mc) as u8;
    let (counter, tima, if_) = timer_advance(
        e.timer,
        m1.read(TIMA),
        m1.read(IF),
        m1.read(TMA),
        m1.read(TAC),
        t,
    );
    let m2 = m1.write(DIV, (counter >> 8) as u8).write(TIMA, tima).write(IF, if_);
    let (ppu, m3) = if m2.read(crate::constants::LCDC) & 0x80 != 0 {
        ppu_run(e.ppu, m2, t as nat)
    } else {
        (e.ppu, m2)
    };
    let (serial, m4) = serial_out(m3);
    (EmulatorView { cpu, ppu, bus: m4, timer: counter, serial, ..e }, t)
}

/// What the front end does after a debugger command.
#[derive(Clone, Copy, Debug, PartialEq, Eq, Structural)]
pub enum DebugAction {
    /// Read another command.
    Prompt,
    /// Leave the debugger and run.
    Resume,
    /// End the program.
    Exit,
    /// Show the registers, then read another command.
    ShowRegisters,
    /// Show 32 bytes from the address, then read another command.
    Dump(u16),
    /// Say that a breakpoint was set, then read another command.
    Inserted(u16),
}

impl Emulator {
    pub fn new() -> (r: Emulator)
        ensures
            r@.wf(),
            r@.cpu == reset_cpu(),
            r@.bus.mem == reset_mem() && r@.bus.banks.len() == 0 && r@.bus.active_bank == 0,
            r@.ppu.counter == 0 && r@.ppu.mode == Mode::Mode0,
            r@.timer == 0,
            r@.breakpoints.is_empty(),
            !r@.debug_mode,
            r@.serial is None,
    {
        let ram = Ram::new();
        proof {
            assert(ram@.read(DIV) == reset_mem()[DIV as int]);
            assert((0u16 >> 8u16) as u8 == 0u8) by (bit_vector);
        }
        Emulator {
            cpu: Cpu::new(),
            ppu: Ppu::new(),
            ram,
            timer: Timer::new(),
            breakpoints: HashSetWithView::new(),
            debug_mode: false,
            serial: None,
        }
    }

    /// A machine that starts in the debugger when `dm` is set.
    pub fn with_debug_mode(dm: bool) -> (r: Emulator)
        ensures
            r@.wf(),
            r@.cpu == reset_cpu(),
            r@.bus.mem == reset_mem() && r@.bus.banks.len() == 0 && r@.bus.active_bank == 0,
            r@.ppu.counter == 0 && r@.ppu.mode == Mode::Mode0,
            r@.timer == 0,
            r@.breakpoints.is_empty(),
            r@.debug_mode == dm,
            r@.serial is None,
    {
        let mut emu = Self::new();
        emu.debug_mode = dm;
        emu
    }

    /// Loads a cartridge image (see `Ram::load`).
    pub fn load(&mut self, data: &[u8]) -> (r: Result<(), LoadError>)
        requires
            old(self)@.wf(),
        ensures
            final(self)@.wf(),
            data@.len() < BANK_SIZE ==> r == Err::<(), LoadError>(LoadError::Truncated)
                && final(self)@ == old(self)@,
            data@.len() >= BANK_SIZE ==> r is Ok && final(self)@ == (EmulatorView {
                bus: BusView {
                    mem: data@.subrange(0, BANK_SIZE as int) + old(self)@.bus.mem.subrange(
                        BANK_SIZE as int,
                        MEM_SIZE as int,
                    ),
                    banks: old(self)@.bus.banks + image_banks(data@),
                    ..old(self)@.bus
                },
                ..old(self)@
            }),
    {
        let r = self.ram.load(data);
        proof {
            assert(self.ram@.read(DIV) == old(self).ram@.read(DIV));
        }
        r
    }

    /// Whether the next tick would fetch an opcode the SM83 does not define.
    pub fn at_unknown_opcode(&self) -> (r: bool)
        requires
            self@.wf(),
        ensures
            r == next_is_unknown(self@.cpu, self@.bus),
    {
        self.cpu.at_unknown_opcode(&self.ram)
    }

    /// Runs one CPU step and the timer and PPU for the dots it took, serves
    /// the serial port, and returns the dots taken.
    pub fn tick(&mut self) -> (r: u8)
        requires
            old(self)@.wf(),
            !next_is_unknown(old(self)@.cpu, old(self)@.bus),
        ensures
            final(self)@.wf(),
            (final(self)@, r) == machine_step(old(self)@),
            final(self)@.bus.read(DIV) == (final(self)@.timer >> 8) as u8,
    {
        proof {
            lemma_step_cycles(self.cpu, self.ram@);
        }
        let m_cyc = self.cpu.tick(&mut self.ram);
        let t_cyc = 4 * m_cyc;
        let mut div = self.ram.read(DIV);
        let mut tima = self.ram.read(TIMA);
        let mut if_ = self.ram.read(IF);
        let tma = self.ram.read(TMA);
        let tac = self.ram.read(TAC);
        self.timer.tick(&mut div, &mut tima, tma, tac, &mut if_, t_cyc);
        self.ram.write(DIV, div);
        self.ram.write(TIMA, tima);
        self.ram.write(IF, if_);
        let ghost m2 = self.ram@;
        let ghost p0 = self.ppu@;
        self.ppu.tick(&mut self.ram, t_cyc);
        proof {
            lemma_ppu_keeps_div(p0, m2, t_cyc as nat);
        }
        let sc = self.ram.read(SC);
        if sc & 0x80 != 0 {
            self.serial = Some(self.ram.read(SB));
            self.ram.write(SC, sc ^ 0x80);
        } else {
            self.serial = None;
        }
        t_cyc
    }

    /// The byte the last tick sent out of the serial port, if any.
    pub fn serial_output(&self) -> (r: Option<u8>)
        ensures
            r == self@.serial,
    {
        self.serial
    }

    /// A whole frame has been drawn: the PPU is in VBlank on its last line.
    pub fn frame_ready(&self) -> (r: bool)
        requires
            self@.wf(),
        ensures
            r == (self@.ppu.mode == Mode::Mode1 && self@.bus.read(LY) == 153),
    {
        self.ppu.mode() == Mode::Mode1 && self.ram.read(LY) == 153
    }

    /// The framebuffer: 160 x 144 colour indices, row-major.
    pub fn framebuffer(&self) -> (r: &Vec<u8>)
        ensures
            r@ == self@.ppu.fetcher.framebuffer,
    {
        self.ppu.framebuffer()
    }

    /// The byte a read of `addr` returns.
    pub fn read(&self, addr: u16) -> (r: u8)
        requires
            self@.wf(),
        ensures
            r == self@.bus.read(addr),
    {
        self.ram.read(addr)
    }

    /// A copy of the CPU registers.
    pub fn cpu(&self) -> (r: Cpu)
        ensures
            r == self@.cpu,
    {
        self.cpu
    }

    /// Whether the debugger is to be entered before the next tick: it is
    /// single-stepping, or PC is at a breakpoint.
    pub fn wants_debug(&self) -> (r: bool)
        ensures
            r == (self@.debug_mode || self@.breakpoints.contains(self@.cpu.pc)),
    {
        self.debug_mode || self.breakpoints.contains(&self.cpu.pc)
    }

    /// Entering the debugger: until `Continue`, it is entered before every tick.
    pub fn enter_debug(&mut self)
        ensures
            final(self)@ == (EmulatorView { debug_mode: true, ..old(self)@ }),
    {
        self.debug_mode = true;
    }

    /// Carries out a debugger command and says what the front end does next.
    pub fn debug_command(&mut self, cmd: DebugCommand) -> (r: DebugAction)
        ensures
            r == debug_action(old(self)@, cmd),
            final(self)@ == debug_state(old(self)@, cmd),
    {
        match cmd {
            DebugCommand::Break(a) => {
                self.breakpoints.insert(a);
                DebugAction::Inserted(a)
            },
            DebugCommand::Continue => {
                self.debug_mode = false;
                DebugAction::Resume
            },
            DebugCommand::Clear => {
                self.breakpoints.clear();
                DebugAction::Prompt
            },
            DebugCommand::Registers => DebugAction::ShowRegisters,
            DebugCommand::Quit => DebugAction::Exit,
            DebugCommand::Examine(a) => DebugAction::Dump(a),
            DebugCommand::ExamineStack => DebugAction::Dump(self.cpu.sp),
            DebugCommand::Step => DebugAction::Resume,
            DebugCommand::Ignored => DebugAction::Prompt,
        }
    }
}

/// What the front end does next after `cmd`.
pub open spec fn debug_action(e: EmulatorView, cmd: DebugCommand) -> DebugAction {
    match cmd {
        DebugCommand::Break(a) => DebugAction::Inserted(a),
        DebugCommand::Continue => DebugAction::Resume,
        DebugCommand::Clear => DebugAction::Prompt,
        DebugCommand::Registers => DebugAction::ShowRegisters,
        DebugCommand::Quit => DebugAction::Exit,
        DebugCommand::Examine(a) => DebugAction::Dump(a),
        DebugCommand::ExamineStack => DebugAction::Dump(e.cpu.sp),
        DebugCommand::Step => DebugAction::Resume,
        DebugCommand::Ignored => DebugAction::Prompt,
    }
}

/// The machine after `cmd`: only breakpoints and single-stepping change.
pub open spec fn debug_state(e: EmulatorView, cmd: DebugCommand) -> EmulatorView {
    match cmd {
        DebugCommand::Break(a) => EmulatorView { breakpoints: e.breakpoints.insert(a), ..e },
        DebugCommand::Continue => EmulatorView { debug_mode: false, ..e },
        DebugCommand::Clear => EmulatorView { breakpoints: Set::empty(), ..e },
        _ => e,
    }
}

/// The PPU writes LY and IF only, so DIV keeps its value.
proof fn lemma_ppu_keeps_div(p: PpuView, m: BusView, n: nat)
    requires
        m.wf(),
    ensures
        ppu_run(p, m, n).1.read(DIV) == m.read(DIV),
        ppu_run(p, m, n).1.wf(),
    decreases n,
{
    if n > 0 {
        lemma_ppu_keeps_div(p, m, (n - 1) as nat);
        let (p1, m1) = ppu_run(p, m, (n - 1) as nat);
        let next_ly = ((m1.read(LY) + 1) % 256) as u8;
        assert(m1.write(LY, next_ly).read(DIV) == m1.read(DIV));
        assert(m1.write(LY, 0).read(DIV) == m1.read(DIV));
        let m2 = m1.write(LY, next_ly);
        assert(m2.write(IF, m2.read(IF) | 1).read(DIV) == m1.read(DIV));
        assert(ppu_dot(p1, m1).1.read(DIV) == m1.read(DIV));
        assert(ppu_dot(p1, m1).1.wf());
    }
}

} // verus!
