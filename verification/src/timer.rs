//! The programmable timer.  A 16-bit divider advances every T-cycle; DIV is
//! its high byte.  TIMA counts the falling edge of the divider bit selected
//! by TAC's low two bits, gated by TAC's enable bit.  A TIMA overflow does
//! not reload at once: TIMA reads as 0 for a four-T-cycle delay, after which
//! TMA is loaded and the timer interrupt is raised.

use vstd::prelude::*;

use crate::utils::{get_bit8, spec_bit8};

verus! {

pub const DIV: u16 = 0xFF04;

pub const TIMA: u16 = 0xFF05;

pub const TMA: u16 = 0xFF06;

pub const TAC: u16 = 0xFF07;

pub const TAC_ENABLE_BIT: u8 = 2;

pub const TIMA_COOLDOWN_OVERFLOW: u8 = 4;

#[derive(PartialEq, Eq, Structural, Clone, Copy)]
pub struct Timer {
    pub counter: u8,
    pub div: u8,
    pub tima: u8,
    pub tma: u8,
    pub tac: u8,
    pub tima_cooldown: u8,
}

/// The divider mask whose falling edge clocks TIMA, selected by TAC's low
/// two bits: bit 9, 3, 5 or 7 of the 16-bit divider.
pub open spec fn spec_tima_period(tac: u8) -> u16 {
    if tac & 0b11 == 0b00 {
        0x200u16
    } else if tac & 0b11 == 0b01 {
        0x8u16
    } else if tac & 0b11 == 0b10 {
        0x20u16
    } else {
        0x80u16
    }
}

/// The 16-bit divider: DIV over the T-cycle counter.
pub open spec fn spec_divider(t: Timer) -> u16 {
    ((t.div as u16) << 8) | (t.counter as u16)
}

/// Whether the selected divider bit is currently high.
pub open spec fn spec_tima_bit(t: Timer) -> bool {
    spec_divider(t) & spec_tima_period(t.tac) != 0
}

/// One T-cycle of the timer: the divider advances (the counter carries
/// into DIV); a pending overflow delay counts down, reloading TIMA from TMA
/// and raising the interrupt when it ends; otherwise TIMA counts the
/// falling edge of the selected divider bit when enabled.
pub open spec fn spec_timer_t_step(t: Timer) -> (Timer, bool) {
    let old_bit = spec_tima_bit(t);
    let counter = if t.counter == 255 {
        0u8
    } else {
        (t.counter + 1) as u8
    };
    let div = if t.counter == 255 {
        if t.div == 255 {
            0u8
        } else {
            (t.div + 1) as u8
        }
    } else {
        t.div
    };
    let t1 = Timer { counter, div, ..t };
    let new_bit = spec_tima_bit(t1);
    let enabled = spec_bit8(t.tac, TAC_ENABLE_BIT);
    if t.tima_cooldown != 0 {
        let cd = (t.tima_cooldown - 1) as u8;
        if cd == 0 {
            (Timer { tima: t.tma, tima_cooldown: 0, ..t1 }, true)
        } else {
            (Timer { tima_cooldown: cd, ..t1 }, false)
        }
    } else if enabled && old_bit && !new_bit {
        if t.tima == 255 {
            (Timer { tima: 0, tima_cooldown: TIMA_COOLDOWN_OVERFLOW, ..t1 }, false)
        } else {
            (Timer { tima: (t.tima + 1) as u8, ..t1 }, false)
        }
    } else {
        (t1, false)
    }
}

/// `n` T-cycles of the timer; the interrupt flag is the disjunction over the
/// cycles.
#[verifier::opaque]
pub open spec fn spec_timer_steps(t: Timer, n: int) -> (Timer, bool)
    decreases n,
{
    if n <= 0 {
        (t, false)
    } else {
        let prev = spec_timer_steps(t, n - 1);
        let step = spec_timer_t_step(prev.0);
        (step.0, prev.1 || step.1)
    }
}

/// The overflow-reload delay: from the state an overflow leaves behind
/// (TIMA 0, the delay at its full four T-cycles), TIMA still reads 0 and no
/// interrupt has fired for the next three T-cycles; exactly four T-cycles
/// after the overflow TMA is loaded and the timer interrupt is raised.
pub proof fn lemma_tima_reload_delay(t: Timer)
    requires
        t.tima == 0,
        t.tima_cooldown == TIMA_COOLDOWN_OVERFLOW,
    ensures
        forall|n: int|
            0 <= n < 4 ==> (#[trigger] spec_timer_steps(t, n)).0.tima == 0 && !spec_timer_steps(
                t,
                n,
            ).1,
        spec_timer_steps(t, 4).0.tima == t.tma,
        spec_timer_steps(t, 4).1,
{
    reveal(spec_timer_steps);
    let s0 = spec_timer_steps(t, 0);
    let s1 = spec_timer_steps(t, 1);
    let s2 = spec_timer_steps(t, 2);
    let s3 = spec_timer_steps(t, 3);
    assert(s1 == (spec_timer_t_step(s0.0).0, spec_timer_t_step(s0.0).1));
    assert(s1.0.tima == 0 && s1.0.tima_cooldown == 3 && !s1.1);
    assert(s2.0.tima == 0 && s2.0.tima_cooldown == 2 && !s2.1);
    assert(s3.0.tima == 0 && s3.0.tima_cooldown == 1 && !s3.1);
    assert(s3.0.tma == t.tma);
    assert(spec_timer_steps(t, 4).0.tima == t.tma && spec_timer_steps(t, 4).1);
    assert forall|n: int| 0 <= n < 4 implies (#[trigger] spec_timer_steps(t, n)).0.tima == 0
        && !spec_timer_steps(t, n).1 by {
        if n == 0 {
            assert(spec_timer_steps(t, 0) == (t, false));
        } else if n == 1 {
            assert(spec_timer_steps(t, 1).0.tima == 0);
        } else if n == 2 {
            assert(spec_timer_steps(t, 2).0.tima == 0);
        } else {
            assert(spec_timer_steps(t, 3).0.tima == 0);
        }
    }
}

impl Timer {
    pub fn new() -> (t: Timer)
        ensures
            t == (Timer { counter: 0, div: 0, tima: 0, tma: 0, tac: 0, tima_cooldown: 0 }),
    {
        Timer { counter: 0, div: 0, tima: 0, tma: 0, tac: 0, tima_cooldown: 0 }
    }

    /// Advance the timer by `m_cycles` machine cycles (four T-cycles each);
    /// reports whether the timer interrupt was raised.
    pub fn tick(&mut self, m_cycles: u8) -> (interrupt: bool)
        ensures
            (*final(self), interrupt) == spec_timer_steps(*old(self), 4 * m_cycles as int),
    {
        proof {
            reveal(spec_timer_steps);
        }
        let mut interrupt = false;
        let t_cycles: u16 = 4 * (m_cycles as u16);

        let mut i: u16 = 0;
        while i < t_cycles
            invariant
                i <= t_cycles,
                t_cycles == 4 * m_cycles,
                (*self, interrupt) == spec_timer_steps(*old(self), i as int),
            decreases t_cycles - i,
        {
            let ghost pre = *self;
            let ghost pre_interrupt = interrupt;
            let old_bit = self.tima_tick();
            if self.counter == 255 {
                self.counter = 0;
                self.div = if self.div == 255 {
                    0
                } else {
                    self.div + 1
                };
            } else {
                self.counter = self.counter + 1;
            }
            let new_bit = self.tima_tick();
            let enabled = get_bit8(self.tac, TAC_ENABLE_BIT);

            if self.tima_cooldown != 0 {
                self.tima_cooldown = self.tima_cooldown - 1;
                if self.tima_cooldown == 0 {
                    self.tima = self.tma;
                    interrupt = true;
                }
            } else if enabled && old_bit && !new_bit {
                if self.tima == 255 {
                    self.tima = 0;
                    self.tima_cooldown = TIMA_COOLDOWN_OVERFLOW;
                } else {
                    self.tima = self.tima + 1;
                }
            }
            proof {
                reveal(spec_timer_steps);
                let step = spec_timer_t_step(pre);
                assert(*self == step.0);
                assert(interrupt == (pre_interrupt || step.1));
                assert(spec_timer_steps(*old(self), i + 1) == (step.0, pre_interrupt || step.1));
            }
            i += 1;
        }
        interrupt
    }

    /// What the four timer registers read as.
    pub open spec fn spec_read(self, addr: u16) -> u8 {
        if addr == DIV {
            self.div
        } else if addr == TIMA {
            self.tima
        } else if addr == TMA {
            self.tma
        } else {
            self.tac
        }
    }

    pub fn read_timer(&self, addr: u16) -> (r: u8)
        requires
            DIV <= addr <= TAC,
        ensures
            r == self.spec_read(addr),
    {
        if addr == DIV {
            self.div
        } else if addr == TIMA {
            self.tima
        } else if addr == TMA {
            self.tma
        } else {
            self.tac
        }
    }

    /// The timer after a register write: a DIV write clears DIV, a TIMA
    /// write also cancels a pending overflow reload, TMA and TAC are direct.
    pub open spec fn spec_write(self, addr: u16, val: u8) -> Timer {
        if addr == DIV {
            Timer { div: 0, ..self }
        } else if addr == TIMA {
            Timer { tima: val, tima_cooldown: 0, ..self }
        } else if addr == TMA {
            Timer { tma: val, ..self }
        } else {
            Timer { tac: val, ..self }
        }
    }

    pub fn write_timer(&mut self, addr: u16, val: u8)
        requires
            DIV <= addr <= TAC,
        ensures
            *final(self) == old(self).spec_write(addr, val),
    {
        if addr == DIV {
            self.div = 0;
        } else if addr == TIMA {
            self.tima = val;
            self.tima_cooldown = 0;
        } else if addr == TMA {
            self.tma = val;
        } else {
            self.tac = val;
        }
    }

    fn get_tima_period(&self) -> (r: u16)
        ensures
            r == spec_tima_period(self.tac),
    {
        let sel = self.tac & 0b11;
        if sel == 0b00 {
            0x200
        } else if sel == 0b01 {
            0x8
        } else if sel == 0b10 {
            0x20
        } else {
            0x80
        }
    }

    fn tima_tick(&self) -> (r: bool)
        ensures
            r == spec_tima_bit(*self),
    {
        ((((self.div as u16) << 8) | (self.counter as u16)) & self.get_tima_period()) != 0
    }
}

} // verus!
