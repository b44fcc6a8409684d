use gameboy::bus::LoadError;
use gameboy::debugger::{parse_addr, parse_command, DebugCommand};
use gameboy::emulator::{DebugAction, Emulator};

/// A 32 KiB image of NOPs with `program` at 0x0100.
fn rom(program: &[u8]) -> Vec<u8> {
    let mut data = vec![0u8; 0x8000];
    data[0x100..0x100 + program.len()].copy_from_slice(program);
    data
}

#[test]
fn serial_port_sends_a_byte() {
    let mut emu = Emulator::new();
    // LD A, 'H'; LDH [SB], A; LD A, 0x81; LDH [SC], A; JR -2
    emu.load(&rom(&[0x3E, 0x48, 0xE0, 0x01, 0x3E, 0x81, 0xE0, 0x02, 0x18, 0xFE]))
        .unwrap();
    for _ in 0..3 {
        emu.tick();
        assert_eq!(emu.serial_output(), None);
    }
    assert_eq!(emu.tick(), 12);
    assert_eq!(emu.serial_output(), Some(b'H'));
    assert_eq!(emu.read(0xFF02) & 0x80, 0);
    emu.tick();
    assert_eq!(emu.serial_output(), None);
}

#[test]
fn div_follows_the_dots() {
    let mut emu = Emulator::new();
    emu.load(&rom(&[])).unwrap();
    let mut dots = 0u32;
    for _ in 0..100 {
        dots += emu.tick() as u32;
        assert_eq!(emu.read(0xFF04) as u32, (dots >> 8) & 0xFF);
    }
    assert_eq!(dots, 400);
}

#[test]
fn a_frame_gets_ready() {
    let mut emu = Emulator::new();
    emu.load(&rom(&[])).unwrap();
    let mut ticks = 0;
    while !emu.frame_ready() {
        emu.tick();
        ticks += 1;
        assert!(ticks < 20000);
    }
    assert_eq!(emu.read(0xFF44), 153);
    assert_eq!(emu.framebuffer().len(), 160 * 144);
}

#[test]
fn load_errors_and_unknown_opcodes() {
    let mut emu = Emulator::new();
    assert_eq!(emu.load(&[0u8; 100]), Err(LoadError::Truncated));
    emu.load(&rom(&[0xDD])).unwrap();
    assert!(emu.at_unknown_opcode());
    assert_eq!(emu.cpu().pc, 0x0100);
}

#[test]
fn debugger_breakpoints_and_stepping() {
    let mut emu = Emulator::with_debug_mode(true);
    emu.load(&rom(&[])).unwrap();
    assert!(emu.wants_debug());
    assert_eq!(emu.debug_command(DebugCommand::Continue), DebugAction::Resume);
    assert!(!emu.wants_debug());
    assert_eq!(emu.debug_command(DebugCommand::Break(0x0102)), DebugAction::Inserted(0x0102));
    emu.tick();
    assert!(!emu.wants_debug());
    emu.tick();
    assert!(emu.wants_debug());
    emu.enter_debug();
    assert_eq!(emu.debug_command(DebugCommand::Clear), DebugAction::Prompt);
    assert_eq!(emu.debug_command(DebugCommand::ExamineStack), DebugAction::Dump(0xFFFE));
    assert_eq!(emu.debug_command(DebugCommand::Examine(0xC000)), DebugAction::Dump(0xC000));
    assert_eq!(emu.debug_command(DebugCommand::Registers), DebugAction::ShowRegisters);
    assert_eq!(emu.debug_command(DebugCommand::Step), DebugAction::Resume);
    assert!(emu.wants_debug());
    assert_eq!(emu.debug_command(DebugCommand::Continue), DebugAction::Resume);
    assert!(!emu.wants_debug());
    assert_eq!(emu.debug_command(DebugCommand::Quit), DebugAction::Exit);
}

#[test]
fn parse_addresses() {
    assert_eq!(parse_addr("$FF"), Some(255));
    assert_eq!(parse_addr("$c0de"), Some(0xC0DE));
    assert_eq!(parse_addr("255"), Some(255));
    assert_eq!(parse_addr("+12"), Some(12));
    assert_eq!(parse_addr("$+1f"), Some(31));
    assert_eq!(parse_addr("65535"), Some(65535));
    assert_eq!(parse_addr("65536"), None);
    assert_eq!(parse_addr("$10000"), None);
    assert_eq!(parse_addr("$"), None);
    assert_eq!(parse_addr(""), None);
    assert_eq!(parse_addr("+"), None);
    assert_eq!(parse_addr("ff"), None);
    assert_eq!(parse_addr("12x"), None);
}

#[test]
fn parse_commands() {
    assert_eq!(parse_command(None, None), DebugCommand::Step);
    assert_eq!(parse_command(Some("b"), Some("$150")), DebugCommand::Break(0x150));
    assert_eq!(parse_command(Some("b"), None), DebugCommand::Ignored);
    assert_eq!(parse_command(Some("b"), Some("zz")), DebugCommand::Ignored);
    assert_eq!(parse_command(Some("c"), None), DebugCommand::Continue);
    assert_eq!(parse_command(Some("d"), None), DebugCommand::Clear);
    assert_eq!(parse_command(Some("r"), None), DebugCommand::Registers);
    assert_eq!(parse_command(Some("q"), None), DebugCommand::Quit);
    assert_eq!(parse_command(Some("x"), Some("sp")), DebugCommand::ExamineStack);
    assert_eq!(parse_command(Some("x"), Some("49152")), DebugCommand::Examine(0xC000));
    assert_eq!(parse_command(Some("x"), None), DebugCommand::Ignored);
    assert_eq!(parse_command(Some("go"), None), DebugCommand::Ignored);
}
