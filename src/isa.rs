//! The SM83 instruction set as mathematical functions: what one instruction,
//! one interrupt dispatch or one idle cycle does to the registers and to the
//! bus, and how many machine cycles it takes.
use vstd::prelude::*;

use crate::bus::{BusView, lemma_write_keeps_next, lemma_write_read_back, lemma_write_wf};
use crate::constants::{IE, IF};
use crate::cpu::{Cpu, Flags, Ime};

verus! {

/// A byte read as a two's-complement offset.
pub open spec fn signed(e: u8) -> int {
    if e < 128 {
        e as int
    } else {
        e - 256
    }
}

/// `base` moved by the signed offset `e`, wrapping at 16 bits.
pub open spec fn offset16(base: u16, e: u8) -> u16 {
    ((base + signed(e)) % 0x10000) as u16
}

/// The 16-bit value with high byte `hi` and low byte `lo`.
pub open spec fn pair(hi: u8, lo: u8) -> u16 {
    (hi * 256 + lo) as u16
}

pub open spec fn high(v: u16) -> u8 {
    (v / 256) as u8
}

pub open spec fn low(v: u16) -> u8 {
    (v % 256) as u8
}

impl Flags {
    /// The F register: Z, N, H, C in bits 7..4; bits 3..0 read zero.
    pub open spec fn byte(self) -> u8 {
        ((if self.zero {
            0x80int
        } else {
            0
        }) + (if self.sub {
            0x40int
        } else {
            0
        }) + (if self.half_carry {
            0x20int
        } else {
            0
        }) + (if self.carry {
            0x10int
        } else {
            0
        })) as u8
    }

    pub open spec fn of_byte(b: u8) -> Flags {
        Flags {
            zero: b & 0x80 != 0,
            sub: b & 0x40 != 0,
            half_carry: b & 0x20 != 0,
            carry: b & 0x10 != 0,
        }
    }
}

impl Cpu {
    /// Register `r` of the `r8` encoding {B, C, D, E, H, L, -, A}; index 6
    /// is the byte at HL and never names a register.
    pub open spec fn reg8(self, r: u8) -> u8 {
        if r == 0 {
            self.b
        } else if r == 1 {
            self.c
        } else if r == 2 {
            self.d
        } else if r == 3 {
            self.e
        } else if r == 4 {
            self.h
        } else if r == 5 {
            self.l
        } else {
            self.a
        }
    }

    pub open spec fn with_reg8(self, r: u8, v: u8) -> Cpu {
        if r == 0 {
            Cpu { b: v, ..self }
        } else if r == 1 {
            Cpu { c: v, ..self }
        } else if r == 2 {
            Cpu { d: v, ..self }
        } else if r == 3 {
            Cpu { e: v, ..self }
        } else if r == 4 {
            Cpu { h: v, ..self }
        } else if r == 5 {
            Cpu { l: v, ..self }
        } else {
            Cpu { a: v, ..self }
        }
    }

    pub open spec fn hl(self) -> u16 {
        pair(self.h, self.l)
    }

    /// Register pair `r` of the `r16` encoding {BC, DE, HL, SP}.
    pub open spec fn reg16(self, r: u8) -> u16 {
        if r == 0 {
            pair(self.b, self.c)
        } else if r == 1 {
            pair(self.d, self.e)
        } else if r == 2 {
            self.hl()
        } else {
            self.sp
        }
    }

    pub open spec fn with_reg16(self, r: u8, v: u16) -> Cpu {
        if r == 0 {
            Cpu { b: high(v), c: low(v), ..self }
        } else if r == 1 {
            Cpu { d: high(v), e: low(v), ..self }
        } else if r == 2 {
            Cpu { h: high(v), l: low(v), ..self }
        } else {
            Cpu { sp: v, ..self }
        }
    }

    /// Condition `cc` of the `cond` encoding {NZ, Z, NC, C}.
    pub open spec fn holds(self, cc: u8) -> bool {
        if cc == 0 {
            !self.f.zero
        } else if cc == 1 {
            self.f.zero
        } else if cc == 2 {
            !self.f.carry
        } else {
            self.f.carry
        }
    }

    pub open spec fn with_flags(self, f: Flags) -> Cpu {
        Cpu { f, ..self }
    }

    pub open spec fn jump(self, pc: u16) -> Cpu {
        Cpu { pc, ..self }
    }
}

/// The registers as the boot ROM leaves them.
pub open spec fn reset_cpu() -> Cpu {
    Cpu {
        pc: 0x100,
        sp: 0xFFFE,
        a: 0x01,
        b: 0,
        c: 0x13,
        d: 0,
        e: 0xD8,
        f: Flags { zero: true, sub: false, half_carry: true, carry: true },
        h: 0x01,
        l: 0x4D,
        ime: Ime::Disabled,
        halted: false,
        stopped: false,
    }
}

/// Reads the byte at PC and moves PC past it.
pub open spec fn fetched(c: Cpu, m: BusView) -> (Cpu, u8) {
    (c.jump(c.pc.wrapping_add(1)), m.read(c.pc))
}

/// Reads the little-endian word at PC and moves PC past it.
pub open spec fn fetched16(c: Cpu, m: BusView) -> (Cpu, u16) {
    (
        c.jump(c.pc.wrapping_add(2)),
        pair(m.read(c.pc.wrapping_add(1)), m.read(c.pc)),
    )
}

/// Pushes `v`: its high byte goes to SP - 1, its low byte to SP - 2.
pub open spec fn pushed(c: Cpu, m: BusView, v: u16) -> (Cpu, BusView) {
    let sp1 = c.sp.wrapping_sub(1);
    let sp2 = sp1.wrapping_sub(1);
    (Cpu { sp: sp2, ..c }, m.write(sp1, high(v)).write(sp2, low(v)))
}

/// Pops a word: the low byte from SP, the high byte from SP + 1.
pub open spec fn popped(c: Cpu, m: BusView) -> (Cpu, u16) {
    (Cpu { sp: c.sp.wrapping_add(2), ..c }, pair(m.read(c.sp.wrapping_add(1)), m.read(c.sp)))
}

/// The operand named by `r` in the `r8` encoding, index 6 being the byte at HL.
pub open spec fn operand(c: Cpu, m: BusView, r: u8) -> u8 {
    if r == 6 {
        m.read(c.hl())
    } else {
        c.reg8(r)
    }
}

/// The eight accumulator operations ADD, ADC, SUB, SBC, AND, XOR, OR, CP of
/// `a` with `b`: the new A and the new flags.
pub open spec fn alu(op: u8, a: u8, b: u8, f: Flags) -> (u8, Flags) {
    let cin: int = if f.carry {
        1
    } else {
        0
    };
    if op == 0 {
        let r = ((a + b) % 256) as u8;
        (r, Flags { zero: r == 0, sub: false, half_carry: (a & 0xF) + (b & 0xF) > 0xF, carry: a + b > 0xFF })
    } else if op == 1 {
        let r = ((a + b + cin) % 256) as u8;
        (
            r,
            Flags {
                zero: r == 0,
                sub: false,
                half_carry: (a & 0xF) + (b & 0xF) + cin > 0xF,
                carry: a + b + cin > 0xFF,
            },
        )
    } else if op == 2 {
        let r = ((a - b) % 256) as u8;
        (r, Flags { zero: r == 0, sub: true, half_carry: (a & 0xF) < (b & 0xF), carry: a < b })
    } else if op == 3 {
        let r = ((a - b - cin) % 256) as u8;
        (
            r,
            Flags {
                zero: r == 0,
                sub: true,
                half_carry: (a & 0xF) < (b & 0xF) + cin,
                carry: a < b + cin,
            },
        )
    } else if op == 4 {
        let r = a & b;
        (r, Flags { zero: r == 0, sub: false, half_carry: true, carry: false })
    } else if op == 5 {
        let r = a ^ b;
        (r, Flags { zero: r == 0, sub: false, half_carry: false, carry: false })
    } else if op == 6 {
        let r = a | b;
        (r, Flags { zero: r == 0, sub: false, half_carry: false, carry: false })
    } else {
        (a, Flags { zero: a == b, sub: true, half_carry: (a & 0xF) < (b & 0xF), carry: a < b })
    }
}

/// INC of an 8-bit value; C is kept.
pub open spec fn inc8(v: u8, f: Flags) -> (u8, Flags) {
    let r = ((v + 1) % 256) as u8;
    (r, Flags { zero: r == 0, sub: false, half_carry: v & 0xF == 0xF, carry: f.carry })
}

/// DEC of an 8-bit value; C is kept.
pub open spec fn dec8(v: u8, f: Flags) -> (u8, Flags) {
    let r = ((v - 1) % 256) as u8;
    (r, Flags { zero: r == 0, sub: true, half_carry: v & 0xF == 0, carry: f.carry })
}

/// ADD HL, r16; Z is kept.
pub open spec fn add16(hl: u16, v: u16, f: Flags) -> (u16, Flags) {
    (
        ((hl + v) % 0x10000) as u16,
        Flags {
            zero: f.zero,
            sub: false,
            half_carry: (hl & 0xFFF) + (v & 0xFFF) > 0xFFF,
            carry: hl + v > 0xFFFF,
        },
    )
}

/// SP plus a signed offset, as ADD SP, e8 and LD HL, SP + e8 compute it: the
/// carries come from the unsigned low nibble and low byte.
pub open spec fn sp_plus(sp: u16, e: u8) -> (u16, Flags) {
    (
        offset16(sp, e),
        Flags {
            zero: false,
            sub: false,
            half_carry: (sp & 0xF) + (e & 0xF) > 0xF,
            carry: (sp & 0xFF) + e > 0xFF,
        },
    )
}

/// The rotate/shift family RLC, RRC, RL, RR, SLA, SRA, SWAP, SRL of `v`
/// with carry in `carry`: the result and the carry out.
pub open spec fn shift(op: u8, v: u8, carry: bool) -> (u8, bool) {
    let cin: int = if carry {
        1
    } else {
        0
    };
    if op == 0 {
        (((v * 2) % 256 + v / 128) as u8, v >= 128)
    } else if op == 1 {
        ((v / 2 + (v % 2) * 128) as u8, v % 2 == 1)
    } else if op == 2 {
        (((v * 2) % 256 + cin) as u8, v >= 128)
    } else if op == 3 {
        ((v / 2 + cin * 128) as u8, v % 2 == 1)
    } else if op == 4 {
        (((v * 2) % 256) as u8, v >= 128)
    } else if op == 5 {
        ((v / 2 + (v / 128) * 128) as u8, v % 2 == 1)
    } else if op == 6 {
        (((v % 16) * 16 + v / 16) as u8, false)
    } else {
        ((v / 2) as u8, v % 2 == 1)
    }
}

/// DAA: the decimal adjustment of A after an addition (N clear) or a
/// subtraction (N set).
pub open spec fn daa(a: u8, f: Flags) -> (u8, Flags) {
    if f.sub {
        let adj: int = (if f.half_carry {
            6int
        } else {
            0
        }) + (if f.carry {
            0x60int
        } else {
            0
        });
        let r = ((a - adj) % 256) as u8;
        (r, Flags { zero: r == 0, sub: true, half_carry: false, carry: f.carry })
    } else {
        let lo_adj = f.half_carry || (a & 0xF) > 9;
        let hi_adj = f.carry || a > 0x99;
        let adj: int = (if lo_adj {
            6int
        } else {
            0
        }) + (if hi_adj {
            0x60int
        } else {
            0
        });
        let r = ((a + adj) % 256) as u8;
        (r, Flags { zero: r == 0, sub: false, half_carry: false, carry: hi_adj })
    }
}

/// The opcodes the SM83 does not define.
pub open spec fn is_unknown_opcode(op: u8) -> bool {
    op == 0xD3 || op == 0xDB || op == 0xDD || op == 0xE3 || op == 0xE4 || op == 0xEB || op == 0xEC
        || op == 0xED || op == 0xF4 || op == 0xFC || op == 0xFD
}

/// The interrupts both requested (IF) and enabled (IE).
pub open spec fn pending(m: BusView) -> u8 {
    m.read(IF) & m.read(IE) & 0x1F
}

/// Whether the next tick fetches an opcode the SM83 does not define.
pub open spec fn next_is_unknown(c: Cpu, m: BusView) -> bool {
    &&& !c.stopped
    &&& !(c.halted && pending(m) == 0)
    &&& !(c.ime == Ime::Enabled && pending(m) != 0)
    &&& is_unknown_opcode(m.read(c.pc))
}

/// Interrupt dispatch: push PC, jump to the vector of the lowest pending
/// interrupt, acknowledge it in IF and disable interrupts.
pub open spec fn dispatch(c: Cpu, m: BusView) -> (Cpu, BusView, u8) {
    let if_ = m.read(IF);
    let b = (if_ & m.read(IE)).trailing_zeros();
    let (c1, m1) = pushed(c, m, c.pc);
    (
        Cpu { pc: (0x40 + 8 * b) as u16, ime: Ime::Disabled, ..c1 },
        m1.write(IF, if_ & !(1u8 << b)),
        5,
    )
}

/// One tick of the CPU: the new registers, the new bus and the machine
/// cycles taken.
pub open spec fn step(c: Cpu, m: BusView) -> (Cpu, BusView, u8) {
    if c.stopped {
        (c, m, 1)
    } else if c.halted && pending(m) == 0 {
        (c, m, 1)
    } else {
        let c1 = Cpu { halted: false, ..c };
        if c1.ime == Ime::Enabled && pending(m) != 0 {
            dispatch(c1, m)
        } else {
            let c2 = if c1.ime == Ime::Pending {
                Cpu { ime: Ime::Enabled, ..c1 }
            } else {
                c1
            };
            let (c3, op) = fetched(c2, m);
            execute(c3, m, op)
        }
    }
}

/// Executes `op`, PC already past it.
pub open spec fn execute(c: Cpu, m: BusView, op: u8) -> (Cpu, BusView, u8) {
    let x = op / 64;
    if x == 0 {
        block0(c, m, op)
    } else if x == 1 {
        block1(c, m, op)
    } else if x == 2 {
        block2(c, m, op)
    } else {
        block3(c, m, op)
    }
}

/// HL after an `r16mem` access through index `p` (HL+ and HL- move it).
pub open spec fn hl_stepped(c: Cpu, p: u8, addr: u16) -> Cpu {
    if p == 2 {
        c.with_reg16(2, addr.wrapping_add(1))
    } else if p == 3 {
        c.with_reg16(2, addr.wrapping_sub(1))
    } else {
        c
    }
}

/// Relative jump by the signed byte at PC.
pub open spec fn jr(c: Cpu, m: BusView) -> (Cpu, BusView, u8) {
    let (c1, e) = fetched(c, m);
    (c1.jump(offset16(c1.pc, e)), m, 3)
}

/// Block 0 (opcodes 0x00..0x3F): loads, 16-bit arithmetic, INC/DEC,
/// relative jumps and the accumulator rotates and adjustments. STOP is a
/// one-byte no-op.
pub open spec fn block0(c: Cpu, m: BusView, op: u8) -> (Cpu, BusView, u8) {
    let y = ((op / 8) % 8) as u8;
    let z = op % 8;
    let p = y / 2;
    let q = y % 2;
    if z == 0 {
        if y == 0 || y == 2 {
            (c, m, 1)
        } else if y == 1 {
            let (c1, n) = fetched16(c, m);
            (c1, m.write(n, low(c.sp)).write(n.wrapping_add(1), high(c.sp)), 5)
        } else if y == 3 {
            jr(c, m)
        } else if c.holds((y - 4) as u8) {
            jr(c, m)
        } else {
            (c.jump(c.pc.wrapping_add(1)), m, 2)
        }
    } else if z == 1 {
        if q == 0 {
            let (c1, n) = fetched16(c, m);
            (c1.with_reg16(p, n), m, 3)
        } else {
            let (r, f) = add16(c.hl(), c.reg16(p), c.f);
            (c.with_flags(f).with_reg16(2, r), m, 2)
        }
    } else if z == 2 {
        let addr = c.reg16(
            if p == 3 {
                2
            } else {
                p
            },
        );
        let c1 = hl_stepped(c, p, addr);
        if q == 0 {
            (c1, m.write(addr, c.a), 2)
        } else {
            (Cpu { a: m.read(addr), ..c1 }, m, 2)
        }
    } else if z == 3 {
        if q == 0 {
            (c.with_reg16(p, c.reg16(p).wrapping_add(1)), m, 2)
        } else {
            (c.with_reg16(p, c.reg16(p).wrapping_sub(1)), m, 2)
        }
    } else if z == 4 || z == 5 {
        let (r, f) = if z == 4 {
            inc8(operand(c, m, y), c.f)
        } else {
            dec8(operand(c, m, y), c.f)
        };
        if y == 6 {
            (c.with_flags(f), m.write(c.hl(), r), 3)
        } else {
            (c.with_flags(f).with_reg8(y, r), m, 1)
        }
    } else if z == 6 {
        let (c1, n) = fetched(c, m);
        if y == 6 {
            (c1, m.write(c.hl(), n), 3)
        } else {
            (c1.with_reg8(y, n), m, 2)
        }
    } else if y < 4 {
        let (r, carry) = shift(y, c.a, c.f.carry);
        (Cpu { a: r, f: Flags { zero: false, sub: false, half_carry: false, carry }, ..c }, m, 1)
    } else if y == 4 {
        let (r, f) = daa(c.a, c.f);
        (Cpu { a: r, f, ..c }, m, 1)
    } else if y == 5 {
        (Cpu { a: (255 - c.a) as u8, f: Flags { sub: true, half_carry: true, ..c.f }, ..c }, m, 1)
    } else if y == 6 {
        (c.with_flags(Flags { sub: false, half_carry: false, carry: true, ..c.f }), m, 1)
    } else {
        (c.with_flags(Flags { sub: false, half_carry: false, carry: !c.f.carry, ..c.f }), m, 1)
    }
}

/// Block 1 (opcodes 0x40..0x7F): LD r8, r8, and HALT in place of LD (HL), (HL).
/// HALT idles the CPU until an interrupt is pending; the hardware's HALT bug
/// (the byte after HALT read twice when IME is off and an interrupt is
/// already pending) is not modeled.
pub open spec fn block1(c: Cpu, m: BusView, op: u8) -> (Cpu, BusView, u8) {
    let y = ((op / 8) % 8) as u8;
    let z = op % 8;
    if op == 0x76 {
        (Cpu { halted: true, ..c }, m, 1)
    } else if y == 6 {
        (c, m.write(c.hl(), c.reg8(z)), 2)
    } else if z == 6 {
        (c.with_reg8(y, m.read(c.hl())), m, 2)
    } else {
        (c.with_reg8(y, c.reg8(z)), m, 1)
    }
}

/// Block 2 (opcodes 0x80..0xBF): the accumulator operations on an r8 operand.
pub open spec fn block2(c: Cpu, m: BusView, op: u8) -> (Cpu, BusView, u8) {
    let y = ((op / 8) % 8) as u8;
    let z = op % 8;
    let (r, f) = alu(y, c.a, operand(c, m, z), c.f);
    (
        Cpu { a: r, f, ..c },
        m,
        if z == 6 {
            2
        } else {
            1
        },
    )
}

/// A call: push the return address and jump.
pub open spec fn call(c: Cpu, m: BusView, target: u16) -> (Cpu, BusView) {
    let (c1, m1) = pushed(c, m, c.pc);
    (c1.jump(target), m1)
}

/// Block 3 (opcodes 0xC0..0xFF): control flow, stack, high-page loads,
/// immediate accumulator operations, SP arithmetic and the 0xCB prefix.
pub open spec fn block3(c: Cpu, m: BusView, op: u8) -> (Cpu, BusView, u8) {
    let y = ((op / 8) % 8) as u8;
    let z = op % 8;
    let p = y / 2;
    let q = y % 2;
    if z == 0 {
        if y < 4 {
            if c.holds(y) {
                let (c1, v) = popped(c, m);
                (c1.jump(v), m, 5)
            } else {
                (c, m, 2)
            }
        } else {
            let (c1, n) = fetched(c, m);
            if y == 4 {
                (c1, m.write((0xFF00 + n) as u16, c.a), 3)
            } else if y == 6 {
                (Cpu { a: m.read((0xFF00 + n) as u16), ..c1 }, m, 3)
            } else {
                let (r, f) = sp_plus(c.sp, n);
                if y == 5 {
                    (Cpu { sp: r, f, ..c1 }, m, 4)
                } else {
                    (c1.with_flags(f).with_reg16(2, r), m, 3)
                }
            }
        }
    } else if z == 1 {
        if q == 0 {
            let (c1, v) = popped(c, m);
            if p == 3 {
                (Cpu { a: high(v), f: Flags::of_byte(low(v)), ..c1 }, m, 3)
            } else {
                (c1.with_reg16(p, v), m, 3)
            }
        } else if p == 0 {
            let (c1, v) = popped(c, m);
            (c1.jump(v), m, 4)
        } else if p == 1 {
            let (c1, v) = popped(c, m);
            (Cpu { pc: v, ime: Ime::Enabled, ..c1 }, m, 4)
        } else if p == 2 {
            (c.jump(c.hl()), m, 1)
        } else {
            (Cpu { sp: c.hl(), ..c }, m, 2)
        }
    } else if z == 2 {
        if y < 4 {
            if c.holds(y) {
                let (c1, n) = fetched16(c, m);
                (c1.jump(n), m, 4)
            } else {
                (c.jump(c.pc.wrapping_add(2)), m, 3)
            }
        } else if y == 4 {
            (c, m.write((0xFF00 + c.c) as u16, c.a), 2)
        } else if y == 6 {
            (Cpu { a: m.read((0xFF00 + c.c) as u16), ..c }, m, 2)
        } else {
            let (c1, n) = fetched16(c, m);
            if y == 5 {
                (c1, m.write(n, c.a), 4)
            } else {
                (Cpu { a: m.read(n), ..c1 }, m, 4)
            }
        }
    } else if z == 3 {
        if y == 0 {
            let (c1, n) = fetched16(c, m);
            (c1.jump(n), m, 4)
        } else if y == 1 {
            prefixed(c, m)
        } else if y == 6 {
            (Cpu { ime: Ime::Disabled, ..c }, m, 1)
        } else {
            (Cpu { ime: Ime::Pending, ..c }, m, 1)
        }
    } else if z == 4 {
        if c.holds(y) {
            let (c1, n) = fetched16(c, m);
            let (c2, m2) = call(c1, m, n);
            (c2, m2, 6)
        } else {
            (c.jump(c.pc.wrapping_add(2)), m, 3)
        }
    } else if z == 5 {
        if q == 0 {
            let v = if p == 3 {
                pair(c.a, c.f.byte())
            } else {
                c.reg16(p)
            };
            let (c1, m1) = pushed(c, m, v);
            (c1, m1, 4)
        } else {
            let (c1, n) = fetched16(c, m);
            let (c2, m2) = call(c1, m, n);
            (c2, m2, 6)
        }
    } else if z == 6 {
        let (c1, n) = fetched(c, m);
        let (r, f) = alu(y, c.a, n, c.f);
        (Cpu { a: r, f, ..c1 }, m, 2)
    } else {
        let (c1, m1) = call(c, m, (y * 8) as u16);
        (c1, m1, 4)
    }
}

/// The 0xCB-prefixed table: rotates and shifts, BIT, RES and SET.
pub open spec fn prefixed(c: Cpu, m: BusView) -> (Cpu, BusView, u8) {
    let (c1, op) = fetched(c, m);
    let x = op / 64;
    let y = ((op / 8) % 8) as u8;
    let z = op % 8;
    let v = operand(c1, m, z);
    if x == 1 {
        (
            c1.with_flags(Flags { zero: (v >> y) % 2 == 0, sub: false, half_carry: true, ..c.f }),
            m,
            if z == 6 {
                3
            } else {
                2
            },
        )
    } else {
        let (r, f) = if x == 0 {
            let (r, carry) = shift(y, v, c.f.carry);
            (r, Flags { zero: r == 0, sub: false, half_carry: false, carry })
        } else if x == 2 {
            (v & !(1u8 << y), c.f)
        } else {
            (v | (1u8 << y), c.f)
        };
        if z == 6 {
            (c1.with_flags(f), m.write(c.hl(), r), 4)
        } else {
            (c1.with_flags(f).with_reg8(z, r), m, 2)
        }
    }
}

/// No instruction takes more than six machine cycles.
pub proof fn lemma_step_cycles(c: Cpu, m: BusView)
    ensures
        1 <= step(c, m).2 <= 6,
{
}

/// The accumulator operation an opcode performs (0 ADD, 1 ADC, 2 SUB, 3 SBC,
/// 4 AND, 5 XOR, 6 OR, 7 CP), on a register, on (HL) or on an immediate.
pub open spec fn alu_kind(op: u8) -> Option<u8> {
    if 0x80 <= op < 0xC0 || (op >= 0xC0 && op % 8 == 6) {
        Some(((op / 8) % 8) as u8)
    } else {
        None
    }
}

/// INC r8 (register or (HL)).
pub open spec fn is_inc8(op: u8) -> bool {
    op < 0x40 && op % 8 == 4
}

/// DEC r8 (register or (HL)).
pub open spec fn is_dec8(op: u8) -> bool {
    op < 0x40 && op % 8 == 5
}

/// ADD HL, r16 and ADD SP, e8.
pub open spec fn is_add_wide(op: u8) -> bool {
    (op < 0x40 && op % 16 == 9) || op == 0xE8
}

/// Flag invariants: after any XOR, H and C are clear; after any AND, H is set
/// and C clear; SUB, SBC, CP and DEC r8 set N; ADD, ADC and INC r8 clear it.
pub proof fn lemma_flag_invariants(c: Cpu, m: BusView, op: u8)
    ensures
        alu_kind(op) == Some(5u8) ==> !execute(c, m, op).0.f.half_carry && !execute(
            c,
            m,
            op,
        ).0.f.carry,
        alu_kind(op) == Some(4u8) ==> execute(c, m, op).0.f.half_carry && !execute(
            c,
            m,
            op,
        ).0.f.carry,
        alu_kind(op) == Some(2u8) || alu_kind(op) == Some(3u8) || alu_kind(op) == Some(7u8)
            || is_dec8(op) ==> execute(c, m, op).0.f.sub,
        alu_kind(op) == Some(0u8) || alu_kind(op) == Some(1u8) || is_inc8(op) || is_add_wide(op)
            ==> !execute(c, m, op).0.f.sub,
{
    if 0x80 <= op < 0xC0 {
        assert(execute(c, m, op) == block2(c, m, op));
    } else if op >= 0xC0 {
        if op % 8 == 6 {
            lemma_alu_immediate(c, m, op);
        } else if op == 0xE8 {
            lemma_add_sp(c, m);
        }
    } else if op < 0x40 {
        assert(execute(c, m, op) == block0(c, m, op));
    }
}

proof fn lemma_alu_immediate(c: Cpu, m: BusView, op: u8)
    requires
        op >= 0xC0,
        op % 8 == 6,
    ensures
        execute(c, m, op).0.f == alu(((op / 8) % 8) as u8, c.a, m.read(c.pc), c.f).1,
{
    assert(execute(c, m, op) == block3(c, m, op));
}

proof fn lemma_add_sp(c: Cpu, m: BusView)
    ensures
        execute(c, m, 0xE8).0.f == sp_plus(c.sp, m.read(c.pc)).1,
{
    assert(execute(c, m, 0xE8) == block3(c, m, 0xE8));
}

/// Interrupt dispatch: with IME enabled and an interrupt both requested and
/// enabled at tick entry, the tick pushes PC, jumps to 0x40 + 8 times the
/// lowest such bit, clears that bit in IF, disables interrupts and takes 5
/// machine cycles.
pub proof fn lemma_interrupt_dispatch(c: Cpu, m: BusView)
    requires
        m.wf(),
        !c.stopped,
        c.ime == Ime::Enabled,
        pending(m) != 0,
    ensures
        ({
            let b = (m.read(IF) & m.read(IE)).trailing_zeros();
            let (c1, m1) = pushed(c, m, c.pc);
            let (c2, m2, n) = step(c, m);
            &&& n == 5
            &&& b < 5
            &&& c2.pc == 0x40 + 8 * b
            &&& c2.sp == c.sp.wrapping_sub(2)
            &&& c2.ime == Ime::Disabled
            &&& !c2.halted
            &&& m2 == m1.write(IF, m.read(IF) & !(1u8 << b))
            &&& m2.read(IF) == m.read(IF) & !(1u8 << b)
        }),
{
    let x = m.read(IF) & m.read(IE);
    assert(x & 0x1F != 0 ==> x != 0) by (bit_vector);
    vstd::std_specs::bits::axiom_u8_trailing_zeros(x);
    let b = x.trailing_zeros();
    if b >= 5 {
        assert((x >> 0u8) & 1u8 == 0u8);
        assert((x >> 1u8) & 1u8 == 0u8);
        assert((x >> 2u8) & 1u8 == 0u8);
        assert((x >> 3u8) & 1u8 == 0u8);
        assert((x >> 4u8) & 1u8 == 0u8);
        assert(((x >> 0u8) & 1u8 == 0u8 && (x >> 1u8) & 1u8 == 0u8 && (x >> 2u8) & 1u8 == 0u8 && (x
            >> 3u8) & 1u8 == 0u8 && (x >> 4u8) & 1u8 == 0u8) ==> x & 0x1F == 0) by (bit_vector);
    }
    let c1 = Cpu { halted: false, ..c };
    let (_, m1) = pushed(c1, m, c.pc);
    let sp1 = c.sp.wrapping_sub(1);
    let mh = m.write(sp1, high(c.pc));
    lemma_write_wf(m, sp1, high(c.pc));
    let sp2 = sp1.wrapping_sub(1);
    lemma_write_wf(mh, sp2, low(c.pc));
    lemma_write_read_back(m1, IF, m.read(IF) & !(1u8 << b));
}

/// The flags survive a trip through the F byte.
pub proof fn lemma_flags_round_trip(f: Flags)
    ensures
        Flags::of_byte(f.byte()) == f,
{
    let z: u8 = if f.zero {
        1
    } else {
        0
    };
    let n: u8 = if f.sub {
        1
    } else {
        0
    };
    let h: u8 = if f.half_carry {
        1
    } else {
        0
    };
    let c: u8 = if f.carry {
        1
    } else {
        0
    };
    assert(f.byte() == (z * 128 + n * 64 + h * 32 + c * 16) as u8);
    assert(z <= 1 && n <= 1 && h <= 1 && c <= 1 ==> {
        let b = (z * 128 + n * 64 + h * 32 + c * 16) as u8;
        &&& (b & 0x80 != 0) == (z == 1)
        &&& (b & 0x40 != 0) == (n == 1)
        &&& (b & 0x20 != 0) == (h == 1)
        &&& (b & 0x10 != 0) == (c == 1)
    }) by (bit_vector);
}

/// The value PUSH r16 (r16stk encoding, 3 being AF) puts on the stack.
pub open spec fn stack_word(c: Cpu, p: u8) -> u16 {
    if p == 3 {
        pair(c.a, c.f.byte())
    } else {
        c.reg16(p)
    }
}

proof fn lemma_push_op(c: Cpu, m: BusView, p: u8)
    requires
        p < 4,
    ensures
        ({
            let (c1, m1) = pushed(c, m, stack_word(c, p));
            execute(c, m, (0xC5 + 16 * p) as u8) == (c1, m1, 4u8)
        }),
{
    assert(execute(c, m, (0xC5 + 16 * p) as u8) == block3(c, m, (0xC5 + 16 * p) as u8));
}

proof fn lemma_pop_op(c: Cpu, m: BusView, p: u8)
    requires
        p < 4,
    ensures
        ({
            let (c1, v) = popped(c, m);
            execute(c, m, (0xC1 + 16 * p) as u8) == (
                if p == 3 {
                    Cpu { a: high(v), f: Flags::of_byte(low(v)), ..c1 }
                } else {
                    c1.with_reg16(p, v)
                },
                m,
                3u8,
            )
        }),
{
    assert(execute(c, m, (0xC1 + 16 * p) as u8) == block3(c, m, (0xC1 + 16 * p) as u8));
}

/// PUSH r16 then POP r16 restores the pair (for AF: A and the flags) and SP,
/// when both stack bytes are writable memory (SP - 2 at or above 0x8000).
pub proof fn lemma_push_pop(c: Cpu, m: BusView, p: u8)
    requires
        m.wf(),
        p < 4,
        0x8002 <= c.sp,
    ensures
        ({
            let (c1, m1, _) = execute(c, m, (0xC5 + 16 * p) as u8);
            let (c2, _, _) = execute(c1, m1, (0xC1 + 16 * p) as u8);
            &&& c2.sp == c.sp
            &&& p < 3 ==> c2.reg16(p) == c.reg16(p)
            &&& p == 3 ==> c2.a == c.a && c2.f == c.f
        }),
{
    let v = stack_word(c, p);
    let sp1 = (c.sp - 1) as u16;
    let sp2 = (c.sp - 2) as u16;
    let mh = m.write(sp1, high(v));
    lemma_write_read_back(m, sp1, high(v));
    lemma_write_read_back(mh, sp2, low(v));
    lemma_write_keeps_next(mh, sp2, low(v));
    lemma_push_op(c, m, p);
    let (c1, m1) = pushed(c, m, v);
    assert(c1.sp == sp2);
    assert(m1 == mh.write(sp2, low(v)));
    assert(m1.read(sp2) == low(v));
    assert(m1.read(sp1) == high(v));
    lemma_pop_op(c1, m1, p);
    let (c2, w) = popped(c1, m1);
    assert(w == pair(high(v), low(v)));
    assert(pair(high(v), low(v)) == v);
    if p == 3 {
        lemma_flags_round_trip(c.f);
        assert(high(pair(c.a, c.f.byte())) == c.a);
        assert(low(pair(c.a, c.f.byte())) == c.f.byte());
    }
}

/// `LD [HL+], A; DEC HL; LD A, [HL]` gives back the original A (and HL), when
/// HL points at writable memory (at or above 0x8000).
pub proof fn lemma_store_increment_reload(c: Cpu, m: BusView)
    requires
        m.wf(),
        c.hl() >= 0x8000,
    ensures
        ({
            let (c1, m1, _) = execute(c, m, 0x22);
            let (c2, m2, _) = execute(c1, m1, 0x2B);
            let (c3, _, _) = execute(c2, m2, 0x7E);
            c3.a == c.a && c3.hl() == c.hl()
        }),
{
    lemma_write_read_back(m, c.hl(), c.a);
    let hl = c.hl();
    assert(pair(high(hl.wrapping_add(1)), low(hl.wrapping_add(1))) == hl.wrapping_add(1));
    assert(pair(high(hl), low(hl)) == hl);
}

} // verus!
