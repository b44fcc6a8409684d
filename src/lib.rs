//! A cycle-driven emulator core for the original Game Boy (DMG): the SM83
//! CPU interpreter, the background pixel pipeline, the divider/timer and the
//! memory bus with its ROM-bank window.
pub mod constants;
pub mod bus;
pub mod timer;
pub mod cpu;
pub mod isa;
pub mod fifo;
pub mod ppu;
pub mod debugger;
pub mod emulator;
