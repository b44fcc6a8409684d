use vstd::prelude::*;

verus! {

/// The divider/timer: an internal 16-bit counter advanced once per dot. DIV
/// is its high byte; TIMA counts the transitions of a bit selected by TAC.
pub struct Timer {
    counter: u16,
}

impl View for Timer {
    type V = u16;

    /// The internal 16-bit counter.
    closed spec fn view(&self) -> u16 {
        self.counter
    }
}

/// The counter bit whose transitions TIMA counts, chosen by `TAC & 3`.
pub open spec fn tac_bit(tac: u8) -> u16 {
    if tac & 3 == 0 {
        10
    } else if tac & 3 == 1 {
        4
    } else if tac & 3 == 2 {
        6
    } else {
        8
    }
}

/// One increment of the counter with the timer enabled: when the selected bit
/// changes, TIMA goes up by one; on its overflow it is reloaded from TMA and
/// the timer interrupt (IF bit 2) is raised. Yields (counter, TIMA, IF).
pub open spec fn timer_step(counter: u16, tima: u8, if_: u8, tma: u8, tac: u8) -> (u16, u8, u8) {
    let next = counter.wrapping_add(1);
    if (counter ^ next) & (1u16 << tac_bit(tac)) != 0 {
        if tima == 0xFF {
            (next, tma, if_ | 4)
        } else {
            (next, (tima + 1) as u8, if_)
        }
    } else {
        (next, tima, if_)
    }
}

/// `n` increments of the counter with the timer enabled.
pub open spec fn timer_run(counter: u16, tima: u8, if_: u8, tma: u8, tac: u8, n: nat) -> (
    u16,
    u8,
    u8,
)
    decreases n,
{
    if n == 0 {
        (counter, tima, if_)
    } else {
        let (c, t, f) = timer_run(counter, tima, if_, tma, tac, (n - 1) as nat);
        timer_step(c, t, f, tma, tac)
    }
}

/// `t` dots of the timer under TAC: counted `timer_step`s when TAC bit 2 is
/// set, else the counter alone moves on.
pub open spec fn timer_advance(counter: u16, tima: u8, if_: u8, tma: u8, tac: u8, t: u8) -> (
    u16,
    u8,
    u8,
) {
    if tac & 4 != 0 {
        timer_run(counter, tima, if_, tma, tac, t as nat)
    } else {
        (counter.wrapping_add(t as u16), tima, if_)
    }
}

impl Timer {
    pub fn new() -> (r: Timer)
        ensures
            r@ == 0,
    {
        Timer { counter: 0 }
    }

    /// The internal 16-bit counter.
    pub fn counter(&self) -> (r: u16)
        ensures
            r == self@,
    {
        self.counter
    }

    /// Advances the counter by `t_cyc` dots. With TAC bit 2 clear the counter
    /// just moves on; otherwise each increment is a `timer_step`. DIV always
    /// ends as the high byte of the counter.
    pub fn tick(&mut self, div: &mut u8, tima: &mut u8, tma: u8, tac: u8, if_: &mut u8, t_cyc: u8)
        ensures
            (final(self)@, *final(tima), *final(if_)) == timer_advance(
                old(self)@,
                *old(tima),
                *old(if_),
                tma,
                tac,
                t_cyc,
            ),
            *final(div) == (final(self)@ >> 8) as u8,
    {
        if tac & 0b100 != 0 {
            let bit: u16 = if tac & 0b11 == 0 {
                10
            } else if tac & 0b11 == 1 {
                4
            } else if tac & 0b11 == 2 {
                6
            } else {
                8
            };
            let mask: u16 = 1u16 << bit;
            let mut i: u8 = 0;
            while i < t_cyc
                invariant
                    i <= t_cyc,
                    bit == tac_bit(tac),
                    mask == 1u16 << bit,
                    (self.counter, *tima, *if_) == timer_run(
                        old(self)@,
                        *old(tima),
                        *old(if_),
                        tma,
                        tac,
                        i as nat,
                    ),
                decreases t_cyc - i,
            {
                let inc = self.counter.wrapping_add(1);
                if (inc ^ self.counter) & mask != 0 {
                    if *tima == 0xFF {
                        *tima = tma;
                        *if_ = *if_ | 4;
                    } else {
                        *tima = *tima + 1;
                    }
                }
                proof {
                    let c = self.counter;
                    assert((inc ^ c) == (c ^ inc)) by (bit_vector);
                }
                self.counter = inc;
                i += 1;
            }
        } else {
            self.counter = self.counter.wrapping_add(t_cyc as u16);
        }
        *div = (self.counter >> 8) as u8;
    }
}

} // verus!
