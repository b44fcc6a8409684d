//! The SM83 interpreter: one instruction, interrupt dispatch or idle cycle
//! per `tick`, proved against the semantics in `isa`.
use vstd::prelude::*;

use crate::bus::Ram;
use crate::constants::{IE, IF};
use crate::isa::{
    add16, alu, block0, block1, block2, block3, call, daa, dec8, execute, fetched, fetched16, inc8,
    is_unknown_opcode, jr, next_is_unknown, offset16, operand, popped, prefixed, pushed, reset_cpu, shift,
    sp_plus, step,
};

verus! {

/// The interrupt master enable latch. `EI` makes it `Pending`, and it becomes
/// `Enabled` one instruction later.
#[derive(Clone, Copy, Debug, PartialEq, Eq, Structural)]
pub enum Ime {
    Disabled,
    Pending,
    Enabled,
}

/// The four named bits of the F register.
#[derive(Clone, Copy, Debug, PartialEq, Eq, Structural)]
pub struct Flags {
    pub zero: bool,
    pub sub: bool,
    pub half_carry: bool,
    pub carry: bool,
}

/// The CPU's registers and run state.
#[derive(Clone, Copy, Debug)]
pub struct Cpu {
    pub pc: u16,
    pub sp: u16,
    pub a: u8,
    pub b: u8,
    pub c: u8,
    pub d: u8,
    pub e: u8,
    pub f: Flags,
    pub h: u8,
    pub l: u8,
    pub ime: Ime,
    pub halted: bool,
    pub stopped: bool,
}

impl Flags {
    pub fn from_byte(b: u8) -> (r: Flags)
        ensures
            r == Flags::of_byte(b),
    {
        Flags {
            zero: b & 0x80 != 0,
            sub: b & 0x40 != 0,
            half_carry: b & 0x20 != 0,
            carry: b & 0x10 != 0,
        }
    }

    pub fn to_byte(self) -> (r: u8)
        ensures
            r == self.byte(),
    {
        let z: u8 = if self.zero {
            0x80
        } else {
            0
        };
        let n: u8 = if self.sub {
            0x40
        } else {
            0
        };
        let h: u8 = if self.half_carry {
            0x20
        } else {
            0
        };
        let c: u8 = if self.carry {
            0x10
        } else {
            0
        };
        z + n + h + c
    }
}

/// Flag-byte round trip: F restored from a byte keeps exactly bits 7..4 of it.
pub proof fn lemma_flag_byte_round_trip(b: u8)
    ensures
        Flags::of_byte(b).byte() == b & 0xF0,
{
    assert(b & 0xF0 == (b & 0x80) + (b & 0x40) + (b & 0x20) + (b & 0x10)) by (bit_vector);
    assert((b & 0x80 == 0 || b & 0x80 == 0x80) && (b & 0x40 == 0 || b & 0x40 == 0x40) && (b
        & 0x20 == 0 || b & 0x20 == 0x20) && (b & 0x10 == 0 || b & 0x10 == 0x10)) by (bit_vector);
}

fn alu8(op: u8, a: u8, b: u8, f: Flags) -> (r: (u8, Flags))
    ensures
        r == alu(op, a, b, f),
{
    let cin: u16 = if f.carry {
        1
    } else {
        0
    };
    let a16 = a as u16;
    let b16 = b as u16;
    let an = (a & 0xF) as u16;
    let bn = (b & 0xF) as u16;
    if op == 0 {
        let r = ((a16 + b16) % 256) as u8;
        (r, Flags { zero: r == 0, sub: false, half_carry: an + bn > 0xF, carry: a16 + b16 > 0xFF })
    } else if op == 1 {
        let r = ((a16 + b16 + cin) % 256) as u8;
        (
            r,
            Flags {
                zero: r == 0,
                sub: false,
                half_carry: an + bn + cin > 0xF,
                carry: a16 + b16 + cin > 0xFF,
            },
        )
    } else if op == 2 {
        let r = ((a16 + 256 - b16) % 256) as u8;
        (r, Flags { zero: r == 0, sub: true, half_carry: an < bn, carry: a < b })
    } else if op == 3 {
        let r = ((a16 + 512 - b16 - cin) % 256) as u8;
        (r, Flags { zero: r == 0, sub: true, half_carry: an < bn + cin, carry: a16 < b16 + cin })
    } else if op == 4 {
        let r = a & b;
        (r, Flags { zero: r == 0, sub: false, half_carry: true, carry: false })
    } else if op == 5 {
        let r = a ^ b;
        (r, Flags { zero: r == 0, sub: false, half_carry: false, carry: false })
    } else if op == 6 {
        let r = a | b;
        (r, Flags { zero: r == 0, sub: false, half_carry: false, carry: false })
    } else {
        (a, Flags { zero: a == b, sub: true, half_carry: an < bn, carry: a < b })
    }
}

fn inc_dec8(dec: bool, v: u8, f: Flags) -> (r: (u8, Flags))
    ensures
        !dec ==> r == inc8(v, f),
        dec ==> r == dec8(v, f),
{
    if dec {
        let r = ((v as u16 + 255) % 256) as u8;
        (r, Flags { zero: r == 0, sub: true, half_carry: v & 0xF == 0, carry: f.carry })
    } else {
        let r = ((v as u16 + 1) % 256) as u8;
        (r, Flags { zero: r == 0, sub: false, half_carry: v & 0xF == 0xF, carry: f.carry })
    }
}

fn shift8(op: u8, v: u8, carry: bool) -> (r: (u8, bool))
    ensures
        r == shift(op, v, carry),
{
    let cin: u16 = if carry {
        1
    } else {
        0
    };
    let w = v as u16;
    if op == 0 {
        (((w * 2) % 256 + w / 128) as u8, v >= 128)
    } else if op == 1 {
        ((w / 2 + (w % 2) * 128) as u8, v % 2 == 1)
    } else if op == 2 {
        (((w * 2) % 256 + cin) as u8, v >= 128)
    } else if op == 3 {
        ((w / 2 + cin * 128) as u8, v % 2 == 1)
    } else if op == 4 {
        (((w * 2) % 256) as u8, v >= 128)
    } else if op == 5 {
        ((w / 2 + (w / 128) * 128) as u8, v % 2 == 1)
    } else if op == 6 {
        (((w % 16) * 16 + w / 16) as u8, false)
    } else {
        ((w / 2) as u8, v % 2 == 1)
    }
}

fn daa8(a: u8, f: Flags) -> (r: (u8, Flags))
    ensures
        r == daa(a, f),
{
    let a16 = a as u16;
    if f.sub {
        let mut adj: u16 = 0;
        if f.half_carry {
            adj = 6;
        }
        if f.carry {
            adj = adj + 0x60;
        }
        let r = ((a16 + 256 - adj) % 256) as u8;
        (r, Flags { zero: r == 0, sub: true, half_carry: false, carry: f.carry })
    } else {
        let lo_adj = f.half_carry || (a & 0xF) > 9;
        let hi_adj = f.carry || a > 0x99;
        let mut adj: u16 = 0;
        if lo_adj {
            adj = 6;
        }
        if hi_adj {
            adj = adj + 0x60;
        }
        let r = ((a16 + adj) % 256) as u8;
        (r, Flags { zero: r == 0, sub: false, half_carry: false, carry: hi_adj })
    }
}

fn add_hl(hl: u16, v: u16, f: Flags) -> (r: (u16, Flags))
    ensures
        r == add16(hl, v, f),
{
    let s = hl as u32 + v as u32;
    (
        (s % 0x10000) as u16,
        Flags {
            zero: f.zero,
            sub: false,
            half_carry: (hl & 0xFFF) as u32 + (v & 0xFFF) as u32 > 0xFFF,
            carry: s > 0xFFFF,
        },
    )
}

fn add_offset(base: u16, e: u8) -> (r: u16)
    ensures
        r == offset16(base, e),
{
    if e < 128 {
        base.wrapping_add(e as u16)
    } else {
        base.wrapping_sub(256 - e as u16)
    }
}

fn add_sp(sp: u16, e: u8) -> (r: (u16, Flags))
    ensures
        r == sp_plus(sp, e),
{
    (
        add_offset(sp, e),
        Flags {
            zero: false,
            sub: false,
            half_carry: (sp & 0xF) as u32 + (e & 0xF) as u32 > 0xF,
            carry: (sp & 0xFF) as u32 + e as u32 > 0xFF,
        },
    )
}

impl Cpu {
    /// The registers as the boot ROM leaves them.
    pub fn new() -> (r: Cpu)
        ensures
            r == reset_cpu(),
    {
        Cpu {
            pc: 0x100,
            sp: 0xFFFE,
            a: 0x01,
            b: 0,
            c: 0x13,
            d: 0,
            e: 0xD8,
            f: Flags { zero: true, sub: false, half_carry: true, carry: true },
            h: 0x01,
            l: 0x4D,
            ime: Ime::Disabled,
            halted: false,
            stopped: false,
        }
    }

    pub fn get_r8(&self, r: u8) -> (v: u8)
        ensures
            v == self.reg8(r),
    {
        if r == 0 {
            self.b
        } else if r == 1 {
            self.c
        } else if r == 2 {
            self.d
        } else if r == 3 {
            self.e
        } else if r == 4 {
            self.h
        } else if r == 5 {
            self.l
        } else {
            self.a
        }
    }

    pub fn set_r8(&mut self, r: u8, v: u8)
        ensures
            *final(self) == old(self).with_reg8(r, v),
    {
        if r == 0 {
            self.b = v;
        } else if r == 1 {
            self.c = v;
        } else if r == 2 {
            self.d = v;
        } else if r == 3 {
            self.e = v;
        } else if r == 4 {
            self.h = v;
        } else if r == 5 {
            self.l = v;
        } else {
            self.a = v;
        }
    }

    pub fn get_r16(&self, r: u8) -> (v: u16)
        ensures
            v == self.reg16(r),
    {
        if r == 0 {
            self.b as u16 * 256 + self.c as u16
        } else if r == 1 {
            self.d as u16 * 256 + self.e as u16
        } else if r == 2 {
            self.h as u16 * 256 + self.l as u16
        } else {
            self.sp
        }
    }

    pub fn set_r16(&mut self, r: u8, v: u16)
        ensures
            *final(self) == old(self).with_reg16(r, v),
    {
        let hi = (v / 256) as u8;
        let lo = (v % 256) as u8;
        if r == 0 {
            self.b = hi;
            self.c = lo;
        } else if r == 1 {
            self.d = hi;
            self.e = lo;
        } else if r == 2 {
            self.h = hi;
            self.l = lo;
        } else {
            self.sp = v;
        }
    }

    pub fn cond(&self, cc: u8) -> (r: bool)
        ensures
            r == self.holds(cc),
    {
        if cc == 0 {
            !self.f.zero
        } else if cc == 1 {
            self.f.zero
        } else if cc == 2 {
            !self.f.carry
        } else {
            self.f.carry
        }
    }

    fn fetch(&mut self, bus: &Ram) -> (v: u8)
        requires
            bus@.wf(),
        ensures
            (*final(self), v) == fetched(*old(self), bus@),
    {
        let v = bus.read(self.pc);
        self.pc = self.pc.wrapping_add(1);
        v
    }

    fn fetch16(&mut self, bus: &Ram) -> (v: u16)
        requires
            bus@.wf(),
        ensures
            (*final(self), v) == fetched16(*old(self), bus@),
    {
        let lo = self.fetch(bus);
        let hi = self.fetch(bus);
        hi as u16 * 256 + lo as u16
    }

    fn push(&mut self, bus: &mut Ram, v: u8)
        requires
            old(bus)@.wf(),
        ensures
            *final(self) == (Cpu { sp: old(self).sp.wrapping_sub(1), ..*old(self) }),
            final(bus)@ == old(bus)@.write(old(self).sp.wrapping_sub(1), v),
            final(bus)@.wf(),
    {
        self.sp = self.sp.wrapping_sub(1);
        bus.write(self.sp, v);
    }

    fn push16(&mut self, bus: &mut Ram, v: u16)
        requires
            old(bus)@.wf(),
        ensures
            (*final(self), final(bus)@) == pushed(*old(self), old(bus)@, v),
            final(bus)@.wf(),
    {
        self.push(bus, (v / 256) as u8);
        self.push(bus, (v % 256) as u8);
    }

    fn pop(&mut self, bus: &Ram) -> (v: u8)
        requires
            bus@.wf(),
        ensures
            *final(self) == (Cpu { sp: old(self).sp.wrapping_add(1), ..*old(self) }),
            v == bus@.read(old(self).sp),
    {
        let v = bus.read(self.sp);
        self.sp = self.sp.wrapping_add(1);
        v
    }

    fn pop16(&mut self, bus: &Ram) -> (v: u16)
        requires
            bus@.wf(),
        ensures
            (*final(self), v) == popped(*old(self), bus@),
    {
        let lo = self.pop(bus);
        let hi = self.pop(bus);
        hi as u16 * 256 + lo as u16
    }

    fn operand(&self, bus: &Ram, r: u8) -> (v: u8)
        requires
            bus@.wf(),
        ensures
            v == operand(*self, bus@, r),
    {
        if r == 6 {
            bus.read(self.get_r16(2))
        } else {
            self.get_r8(r)
        }
    }

    /// Whether the next tick would fetch an opcode the SM83 does not define;
    /// `tick` must not be called then.
    pub fn at_unknown_opcode(&self, bus: &Ram) -> (r: bool)
        requires
            bus@.wf(),
        ensures
            r == next_is_unknown(*self, bus@),
    {
        if self.stopped {
            return false;
        }
        let pending = bus.read(IF) & bus.read(IE) & 0x1F;
        if self.halted && pending == 0 {
            return false;
        }
        if self.ime == Ime::Enabled && pending != 0 {
            return false;
        }
        let op = bus.read(self.pc);
        op == 0xD3 || op == 0xDB || op == 0xDD || op == 0xE3 || op == 0xE4 || op == 0xEB || op
            == 0xEC || op == 0xED || op == 0xF4 || op == 0xFC || op == 0xFD
    }

    /// Executes one instruction, dispatches one interrupt, or idles one cycle
    /// while halted or stopped; returns the machine cycles taken.
    pub fn tick(&mut self, bus: &mut Ram) -> (r: u8)
        requires
            old(bus)@.wf(),
            !next_is_unknown(*old(self), old(bus)@),
        ensures
            (*final(self), final(bus)@, r) == step(*old(self), old(bus)@),
            final(bus)@.wf(),
    {
        if self.stopped {
            return 1;
        }
        let if_ = bus.read(IF);
        let ie = bus.read(IE);
        let pending = if_ & ie & 0x1F;
        if self.halted {
            if pending != 0 {
                self.halted = false;
            } else {
                return 1;
            }
        }
        if self.ime == Ime::Enabled && pending != 0 {
            assert(if_ & ie & 0x1F != 0 ==> if_ & ie != 0) by (bit_vector);
            proof {
                vstd::std_specs::bits::axiom_u8_trailing_zeros(if_ & ie);
            }
            let bit = (if_ & ie).trailing_zeros();
            let pc = self.pc;
            self.push16(bus, pc);
            self.pc = 0x40 + 8 * (bit as u16);
            bus.write(IF, if_ & !(1u8 << bit));
            self.ime = Ime::Disabled;
            return 5;
        }
        if self.ime == Ime::Pending {
            self.ime = Ime::Enabled;
        }
        let op = self.fetch(bus);
        self.exec_op(bus, op)
    }

    fn exec_op(&mut self, bus: &mut Ram, op: u8) -> (r: u8)
        requires
            old(bus)@.wf(),
            !is_unknown_opcode(op),
        ensures
            (*final(self), final(bus)@, r) == execute(*old(self), old(bus)@, op),
            final(bus)@.wf(),
    {
        let x = op / 64;
        if x == 0 {
            self.exec_block0(bus, op)
        } else if x == 1 {
            self.exec_block1(bus, op)
        } else if x == 2 {
            self.exec_block2(bus, op)
        } else {
            self.exec_block3(bus, op)
        }
    }

    fn jr(&mut self, bus: &Ram) -> (r: u8)
        requires
            bus@.wf(),
        ensures
            (*final(self), bus@, r) == jr(*old(self), bus@),
    {
        let e = self.fetch(bus);
        self.pc = add_offset(self.pc, e);
        3
    }

    fn exec_block0(&mut self, bus: &mut Ram, op: u8) -> (r: u8)
        requires
            old(bus)@.wf(),
            op < 64,
        ensures
            (*final(self), final(bus)@, r) == block0(*old(self), old(bus)@, op),
            final(bus)@.wf(),
    {
        let y: u8 = (op / 8) % 8;
        let z = op % 8;
        let p = y / 2;
        let q = y % 2;
        if z == 0 {
            if y == 0 || y == 2 {
                1
            } else if y == 1 {
                let n = self.fetch16(bus);
                let sp = self.sp;
                bus.write(n, (sp % 256) as u8);
                bus.write(n.wrapping_add(1), (sp / 256) as u8);
                5
            } else if y == 3 {
                self.jr(bus)
            } else if self.cond(y - 4) {
                self.jr(bus)
            } else {
                self.pc = self.pc.wrapping_add(1);
                2
            }
        } else if z == 1 {
            if q == 0 {
                let n = self.fetch16(bus);
                self.set_r16(p, n);
                3
            } else {
                let (r, f) = add_hl(self.get_r16(2), self.get_r16(p), self.f);
                self.f = f;
                self.set_r16(2, r);
                2
            }
        } else if z == 2 {
            let addr = self.get_r16(
                if p == 3 {
                    2
                } else {
                    p
                },
            );
            if q == 0 {
                bus.write(addr, self.a);
            } else {
                self.a = bus.read(addr);
            }
            if p == 2 {
                self.set_r16(2, addr.wrapping_add(1));
            } else if p == 3 {
                self.set_r16(2, addr.wrapping_sub(1));
            }
            2
        } else if z == 3 {
            let v = self.get_r16(p);
            if q == 0 {
                self.set_r16(p, v.wrapping_add(1));
            } else {
                self.set_r16(p, v.wrapping_sub(1));
            }
            2
        } else if z == 4 || z == 5 {
            let v = self.operand(bus, y);
            let (r, f) = inc_dec8(z == 5, v, self.f);
            self.f = f;
            if y == 6 {
                let hl = self.get_r16(2);
                bus.write(hl, r);
                3
            } else {
                self.set_r8(y, r);
                1
            }
        } else if z == 6 {
            let n = self.fetch(bus);
            if y == 6 {
                let hl = self.get_r16(2);
                bus.write(hl, n);
                3
            } else {
                self.set_r8(y, n);
                2
            }
        } else if y < 4 {
            let (r, carry) = shift8(y, self.a, self.f.carry);
            self.a = r;
            self.f = Flags { zero: false, sub: false, half_carry: false, carry };
            1
        } else if y == 4 {
            let (r, f) = daa8(self.a, self.f);
            self.a = r;
            self.f = f;
            1
        } else if y == 5 {
            self.a = 255 - self.a;
            self.f.sub = true;
            self.f.half_carry = true;
            1
        } else if y == 6 {
            self.f.sub = false;
            self.f.half_carry = false;
            self.f.carry = true;
            1
        } else {
            self.f.sub = false;
            self.f.half_carry = false;
            self.f.carry = !self.f.carry;
            1
        }
    }

    fn exec_block1(&mut self, bus: &mut Ram, op: u8) -> (r: u8)
        requires
            old(bus)@.wf(),
            64 <= op < 128,
        ensures
            (*final(self), final(bus)@, r) == block1(*old(self), old(bus)@, op),
            final(bus)@.wf(),
    {
        let y: u8 = (op / 8) % 8;
        let z = op % 8;
        if op == 0x76 {
            self.halted = true;
            1
        } else if y == 6 {
            let hl = self.get_r16(2);
            bus.write(hl, self.get_r8(z));
            2
        } else if z == 6 {
            let v = bus.read(self.get_r16(2));
            self.set_r8(y, v);
            2
        } else {
            let v = self.get_r8(z);
            self.set_r8(y, v);
            1
        }
    }

    fn exec_block2(&mut self, bus: &mut Ram, op: u8) -> (r: u8)
        requires
            old(bus)@.wf(),
            128 <= op < 192,
        ensures
            (*final(self), final(bus)@, r) == block2(*old(self), old(bus)@, op),
            final(bus)@.wf(),
    {
        let y: u8 = (op / 8) % 8;
        let z = op % 8;
        let v = self.operand(bus, z);
        let (r, f) = alu8(y, self.a, v, self.f);
        self.a = r;
        self.f = f;
        if z == 6 {
            2
        } else {
            1
        }
    }

    fn call(&mut self, bus: &mut Ram, target: u16)
        requires
            old(bus)@.wf(),
        ensures
            (*final(self), final(bus)@) == call(*old(self), old(bus)@, target),
            final(bus)@.wf(),
    {
        let pc = self.pc;
        self.push16(bus, pc);
        self.pc = target;
    }

    fn exec_block3(&mut self, bus: &mut Ram, op: u8) -> (r: u8)
        requires
            old(bus)@.wf(),
            192 <= op,
            !is_unknown_opcode(op),
        ensures
            (*final(self), final(bus)@, r) == block3(*old(self), old(bus)@, op),
            final(bus)@.wf(),
    {
        let y: u8 = (op / 8) % 8;
        let z = op % 8;
        let p = y / 2;
        let q = y % 2;
        if z == 0 {
            if y < 4 {
                if self.cond(y) {
                    self.pc = self.pop16(bus);
                    5
                } else {
                    2
                }
            } else {
                let a = self.a;
                let sp = self.sp;
                let n = self.fetch(bus);
                if y == 4 {
                    bus.write(0xFF00 + n as u16, a);
                    3
                } else if y == 6 {
                    self.a = bus.read(0xFF00 + n as u16);
                    3
                } else {
                    let (r, f) = add_sp(sp, n);
                    self.f = f;
                    if y == 5 {
                        self.sp = r;
                        4
                    } else {
                        self.set_r16(2, r);
                        3
                    }
                }
            }
        } else if z == 1 {
            if q == 0 {
                let v = self.pop16(bus);
                if p == 3 {
                    self.a = (v / 256) as u8;
                    self.f = Flags::from_byte((v % 256) as u8);
                } else {
                    self.set_r16(p, v);
                }
                3
            } else if p == 0 {
                self.pc = self.pop16(bus);
                4
            } else if p == 1 {
                self.pc = self.pop16(bus);
                self.ime = Ime::Enabled;
                4
            } else if p == 2 {
                self.pc = self.get_r16(2);
                1
            } else {
                self.sp = self.get_r16(2);
                2
            }
        } else if z == 2 {
            if y < 4 {
                if self.cond(y) {
                    self.pc = self.fetch16(bus);
                    4
                } else {
                    self.pc = self.pc.wrapping_add(2);
                    3
                }
            } else if y == 4 {
                bus.write(0xFF00 + self.c as u16, self.a);
                2
            } else if y == 6 {
                self.a = bus.read(0xFF00 + self.c as u16);
                2
            } else {
                let a = self.a;
                let n = self.fetch16(bus);
                if y == 5 {
                    bus.write(n, a);
                } else {
                    self.a = bus.read(n);
                }
                4
            }
        } else if z == 3 {
            if y == 0 {
                self.pc = self.fetch16(bus);
                4
            } else if y == 1 {
                self.exec_prefixed(bus)
            } else if y == 6 {
                self.ime = Ime::Disabled;
                1
            } else {
                self.ime = Ime::Pending;
                1
            }
        } else if z == 4 {
            if self.cond(y) {
                let n = self.fetch16(bus);
                self.call(bus, n);
                6
            } else {
                self.pc = self.pc.wrapping_add(2);
                3
            }
        } else if z == 5 {
            if q == 0 {
                let v = if p == 3 {
                    self.a as u16 * 256 + self.f.to_byte() as u16
                } else {
                    self.get_r16(p)
                };
                self.push16(bus, v);
                4
            } else {
                let n = self.fetch16(bus);
                self.call(bus, n);
                6
            }
        } else if z == 6 {
            let a = self.a;
            let n = self.fetch(bus);
            let (r, f) = alu8(y, a, n, self.f);
            self.a = r;
            self.f = f;
            2
        } else {
            self.call(bus, y as u16 * 8);
            4
        }
    }

    fn exec_prefixed(&mut self, bus: &mut Ram) -> (r: u8)
        requires
            old(bus)@.wf(),
        ensures
            (*final(self), final(bus)@, r) == prefixed(*old(self), old(bus)@),
            final(bus)@.wf(),
    {
        let op = self.fetch(bus);
        let x = op / 64;
        let y: u8 = (op / 8) % 8;
        let z = op % 8;
        let v = self.operand(bus, z);
        if x == 1 {
            self.f = Flags { zero: (v >> y) % 2 == 0, sub: false, half_carry: true, carry: self.f.carry };
            if z == 6 {
                3
            } else {
                2
            }
        } else {
            let (r, f) = if x == 0 {
                let (r, carry) = shift8(y, v, self.f.carry);
                (r, Flags { zero: r == 0, sub: false, half_carry: false, carry })
            } else if x == 2 {
                (v & !(1u8 << y), self.f)
            } else {
                (v | (1u8 << y), self.f)
            };
            self.f = f;
            if z == 6 {
                let hl = self.get_r16(2);
                bus.write(hl, r);
                4
            } else {
                self.set_r8(z, r);
                2
            }
        }
    }
}

} // verus!
