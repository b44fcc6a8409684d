use gameboy::bus::Ram;
use gameboy::cpu::{Cpu, Flags, Ime};

/// A CPU at 0xC000 with interrupts off and the given program in work RAM.
fn setup(program: &[u8]) -> (Cpu, Ram) {
    let mut cpu = Cpu::new();
    cpu.pc = 0xC000;
    let mut ram = Ram::new();
    for (i, b) in program.iter().enumerate() {
        ram.write(0xC000 + i as u16, *b);
    }
    (cpu, ram)
}

#[test]
fn add_half_carry_boundary() {
    let (mut cpu, mut ram) = setup(&[0xC6, 0x01]);
    cpu.a = 0x0F;
    let cycles = cpu.tick(&mut ram);
    assert_eq!(cycles, 2);
    assert_eq!(cpu.a, 0x10);
    assert_eq!(
        cpu.f,
        Flags { zero: false, sub: false, half_carry: true, carry: false }
    );
}

#[test]
fn daa_after_addition() {
    let (mut cpu, mut ram) = setup(&[0xC6, 0x38, 0x27]);
    cpu.a = 0x45;
    cpu.tick(&mut ram);
    assert_eq!(cpu.a, 0x7D);
    cpu.tick(&mut ram);
    assert_eq!(cpu.a, 0x83);
    assert!(!cpu.f.zero);
    assert!(!cpu.f.half_carry);
    assert!(!cpu.f.carry);
}

#[test]
fn daa_after_subtraction() {
    // 0x42 - 0x15 = 0x2D, adjusted to the decimal 27.
    let (mut cpu, mut ram) = setup(&[0xD6, 0x15, 0x27]);
    cpu.a = 0x42;
    cpu.tick(&mut ram);
    assert_eq!(cpu.a, 0x2D);
    assert!(cpu.f.half_carry);
    cpu.tick(&mut ram);
    assert_eq!(cpu.a, 0x27);
    assert!(cpu.f.sub);
    assert!(!cpu.f.carry);
}

#[test]
fn interrupt_vector() {
    let (mut cpu, mut ram) = setup(&[]);
    ram.write(0xFFFF, 0x01);
    ram.write(0xFF0F, 0x01);
    cpu.ime = Ime::Enabled;
    cpu.pc = 0x0200;
    cpu.sp = 0xFFFE;
    assert_eq!(cpu.tick(&mut ram), 5);
    assert_eq!(cpu.pc, 0x0040);
    assert_eq!(cpu.sp, 0xFFFC);
    assert_eq!(ram.read(0xFFFD), 0x02);
    assert_eq!(ram.read(0xFFFC), 0x00);
    assert_eq!(ram.read(0xFF0F), 0x00);
    assert_eq!(cpu.ime, Ime::Disabled);
}

#[test]
fn interrupt_picks_lowest_pending_bit() {
    let (mut cpu, mut ram) = setup(&[]);
    ram.write(0xFFFF, 0x0C);
    ram.write(0xFF0F, 0x06);
    cpu.ime = Ime::Enabled;
    assert_eq!(cpu.tick(&mut ram), 5);
    // Bit 1 is requested but not enabled; bit 2 (timer) is both.
    assert_eq!(cpu.pc, 0x0050);
    assert_eq!(ram.read(0xFF0F), 0x02);
}

#[test]
fn ei_takes_effect_after_one_instruction() {
    let (mut cpu, mut ram) = setup(&[0xFB, 0x00, 0x00]);
    ram.write(0xFFFF, 0x01);
    ram.write(0xFF0F, 0x01);
    cpu.tick(&mut ram);
    assert_eq!(cpu.ime, Ime::Pending);
    assert_eq!(cpu.tick(&mut ram), 1);
    assert_eq!(cpu.pc, 0xC002);
    assert_eq!(cpu.ime, Ime::Enabled);
    assert_eq!(cpu.tick(&mut ram), 5);
    assert_eq!(cpu.pc, 0x0040);
}

#[test]
fn halt_waits_for_an_interrupt() {
    let (mut cpu, mut ram) = setup(&[0x76, 0x3C]);
    ram.write(0xFF0F, 0x00);
    cpu.tick(&mut ram);
    assert!(cpu.halted);
    assert_eq!(cpu.tick(&mut ram), 1);
    assert_eq!(cpu.pc, 0xC001);
    ram.write(0xFFFF, 0x04);
    ram.write(0xFF0F, 0x04);
    let a = cpu.a;
    cpu.tick(&mut ram);
    assert!(!cpu.halted);
    assert_eq!(cpu.a, a.wrapping_add(1));
}

#[test]
fn xor_clears_half_carry_and_carry() {
    let (mut cpu, mut ram) = setup(&[0xAF]);
    cpu.f = Flags { zero: false, sub: true, half_carry: true, carry: true };
    cpu.tick(&mut ram);
    assert_eq!(cpu.a, 0);
    assert_eq!(cpu.f, Flags { zero: true, sub: false, half_carry: false, carry: false });
}

#[test]
fn and_sets_half_carry_clears_carry() {
    let (mut cpu, mut ram) = setup(&[0xE6, 0x0F]);
    cpu.a = 0xF3;
    cpu.f.carry = true;
    cpu.tick(&mut ram);
    assert_eq!(cpu.a, 0x03);
    assert_eq!(cpu.f, Flags { zero: false, sub: false, half_carry: true, carry: false });
}

#[test]
fn subtract_family_sets_n() {
    // SUB B; SBC A, 1; CP 0; DEC C
    let (mut cpu, mut ram) = setup(&[0x90, 0xDE, 0x01, 0xFE, 0x00, 0x0D]);
    cpu.a = 0x10;
    cpu.b = 0x01;
    cpu.tick(&mut ram);
    assert_eq!(cpu.a, 0x0F);
    assert!(cpu.f.sub && cpu.f.half_carry && !cpu.f.carry);
    cpu.tick(&mut ram);
    assert_eq!(cpu.a, 0x0E);
    assert!(cpu.f.sub);
    cpu.tick(&mut ram);
    assert!(cpu.f.sub && !cpu.f.zero);
    cpu.c = 0x10;
    cpu.tick(&mut ram);
    assert_eq!(cpu.c, 0x0F);
    assert!(cpu.f.sub && cpu.f.half_carry);
}

#[test]
fn add_family_clears_n() {
    // ADD A, B; ADC A, 0xFF; INC D
    let (mut cpu, mut ram) = setup(&[0x80, 0xCE, 0xFF, 0x14]);
    cpu.f = Flags { zero: false, sub: true, half_carry: false, carry: false };
    cpu.a = 0xF0;
    cpu.b = 0x20;
    cpu.tick(&mut ram);
    assert_eq!(cpu.a, 0x10);
    assert!(!cpu.f.sub && cpu.f.carry);
    cpu.tick(&mut ram);
    assert_eq!(cpu.a, 0x10);
    assert!(!cpu.f.sub && cpu.f.carry && cpu.f.half_carry);
    cpu.d = 0x0F;
    cpu.f.sub = true;
    cpu.tick(&mut ram);
    assert_eq!(cpu.d, 0x10);
    assert!(!cpu.f.sub && cpu.f.half_carry);
}

#[test]
fn push_pop_restores_pair_and_sp() {
    // PUSH DE; LD DE, 0; POP DE
    let (mut cpu, mut ram) = setup(&[0xD5, 0x11, 0x00, 0x00, 0xD1]);
    cpu.d = 0xBE;
    cpu.e = 0xEF;
    cpu.sp = 0xDFF0;
    assert_eq!(cpu.tick(&mut ram), 4);
    assert_eq!(cpu.sp, 0xDFEE);
    cpu.tick(&mut ram);
    assert_eq!(cpu.get_r16(1), 0);
    assert_eq!(cpu.tick(&mut ram), 3);
    assert_eq!(cpu.get_r16(1), 0xBEEF);
    assert_eq!(cpu.sp, 0xDFF0);
}

#[test]
fn store_increment_reload_gives_back_a() {
    let (mut cpu, mut ram) = setup(&[0x22, 0x2B, 0x7E]);
    cpu.a = 0x5A;
    cpu.set_r16(2, 0xC100);
    cpu.tick(&mut ram);
    assert_eq!(cpu.get_r16(2), 0xC101);
    assert_eq!(ram.read(0xC100), 0x5A);
    cpu.tick(&mut ram);
    cpu.a = 0;
    cpu.tick(&mut ram);
    assert_eq!(cpu.a, 0x5A);
    assert_eq!(cpu.get_r16(2), 0xC100);
}

#[test]
fn push_af_pop_af_keeps_flag_bits_only() {
    // PUSH BC; POP AF: the low nibble of C does not reach F.
    let (mut cpu, mut ram) = setup(&[0xC5, 0xF1, 0xF5, 0xC1]);
    cpu.b = 0x12;
    cpu.c = 0xFF;
    cpu.sp = 0xDFF0;
    cpu.tick(&mut ram);
    cpu.tick(&mut ram);
    assert_eq!(cpu.a, 0x12);
    assert_eq!(cpu.f.to_byte(), 0xF0);
    // PUSH AF; POP BC shows what F reads as.
    cpu.tick(&mut ram);
    cpu.tick(&mut ram);
    assert_eq!(cpu.get_r16(0), 0x12F0);
    assert_eq!(cpu.sp, 0xDFF0);
}

#[test]
fn flag_byte_round_trip() {
    for b in 0..=255u8 {
        assert_eq!(Flags::from_byte(b).to_byte(), b & 0xF0);
    }
}

#[test]
fn jr_backwards_and_conditional_timing() {
    // JR -2 loops on itself; JR NZ not taken still skips its operand.
    let (mut cpu, mut ram) = setup(&[0x18, 0xFE]);
    assert_eq!(cpu.tick(&mut ram), 3);
    assert_eq!(cpu.pc, 0xC000);
    let (mut cpu, mut ram) = setup(&[0x20, 0x05]);
    cpu.f.zero = true;
    assert_eq!(cpu.tick(&mut ram), 2);
    assert_eq!(cpu.pc, 0xC002);
}

#[test]
fn call_and_ret() {
    let (mut cpu, mut ram) = setup(&[0xCD, 0x10, 0xC0]);
    ram.write(0xC010, 0xC9);
    cpu.sp = 0xDFF0;
    assert_eq!(cpu.tick(&mut ram), 6);
    assert_eq!(cpu.pc, 0xC010);
    assert_eq!(ram.read(0xDFEF), 0xC0);
    assert_eq!(ram.read(0xDFEE), 0x03);
    assert_eq!(cpu.tick(&mut ram), 4);
    assert_eq!(cpu.pc, 0xC003);
    assert_eq!(cpu.sp, 0xDFF0);
}

#[test]
fn add_sp_signed_offset() {
    let (mut cpu, mut ram) = setup(&[0xE8, 0xFF, 0xF8, 0x02]);
    cpu.sp = 0xD00F;
    assert_eq!(cpu.tick(&mut ram), 4);
    assert_eq!(cpu.sp, 0xD00E);
    assert_eq!(cpu.f, Flags { zero: false, sub: false, half_carry: true, carry: true });
    assert_eq!(cpu.tick(&mut ram), 3);
    assert_eq!(cpu.get_r16(2), 0xD010);
    assert!(cpu.f.half_carry && !cpu.f.carry);
}

#[test]
fn add_hl_carries() {
    let (mut cpu, mut ram) = setup(&[0x09]);
    cpu.set_r16(2, 0x8FFF);
    cpu.set_r16(0, 0x8001);
    cpu.f.zero = true;
    assert_eq!(cpu.tick(&mut ram), 2);
    assert_eq!(cpu.get_r16(2), 0x1000);
    assert_eq!(cpu.f, Flags { zero: true, sub: false, half_carry: true, carry: true });
}

#[test]
fn prefixed_rotate_bit_res_set() {
    // RLC B; BIT 7, B; RES 0, B; SET 7, (HL); SWAP A
    let (mut cpu, mut ram) = setup(&[0xCB, 0x00, 0xCB, 0x78, 0xCB, 0x80, 0xCB, 0xFE, 0xCB, 0x37]);
    cpu.b = 0x81;
    cpu.set_r16(2, 0xC100);
    cpu.a = 0x1F;
    assert_eq!(cpu.tick(&mut ram), 2);
    assert_eq!(cpu.b, 0x03);
    assert!(cpu.f.carry && !cpu.f.zero);
    assert_eq!(cpu.tick(&mut ram), 2);
    assert!(cpu.f.zero && cpu.f.half_carry && cpu.f.carry);
    cpu.tick(&mut ram);
    assert_eq!(cpu.b, 0x02);
    assert_eq!(cpu.tick(&mut ram), 4);
    assert_eq!(ram.read(0xC100), 0x80);
    cpu.tick(&mut ram);
    assert_eq!(cpu.a, 0xF1);
    assert!(!cpu.f.carry);
}

#[test]
fn accumulator_rotates_clear_zero() {
    let (mut cpu, mut ram) = setup(&[0x07, 0x1F]);
    cpu.a = 0x80;
    cpu.f.zero = true;
    cpu.tick(&mut ram);
    assert_eq!(cpu.a, 0x01);
    assert_eq!(cpu.f, Flags { zero: false, sub: false, half_carry: false, carry: true });
    cpu.tick(&mut ram);
    assert_eq!(cpu.a, 0x80);
    assert!(cpu.f.carry);
}

#[test]
fn unknown_opcode_is_reported() {
    let (cpu, ram) = setup(&[0xD3]);
    assert!(cpu.at_unknown_opcode(&ram));
    let (cpu, ram) = setup(&[0xE4]);
    assert!(cpu.at_unknown_opcode(&ram));
    let (cpu, ram) = setup(&[0xCD]);
    assert!(!cpu.at_unknown_opcode(&ram));
}

#[test]
fn reset_registers() {
    let cpu = Cpu::new();
    assert_eq!((cpu.pc, cpu.sp, cpu.a), (0x0100, 0xFFFE, 0x01));
    assert_eq!((cpu.b, cpu.c, cpu.d, cpu.e, cpu.h, cpu.l), (0x00, 0x13, 0x00, 0xD8, 0x01, 0x4D));
    assert_eq!(cpu.f.to_byte(), 0xB0);
    assert_eq!(cpu.ime, Ime::Disabled);
}
