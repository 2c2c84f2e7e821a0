//! The battery-backed real-time clock of the MBC3 mapper.  The host injects
//! the wall clock as a monotonic seconds value; the core never reads the
//! system time itself.  Writing `$00` then `$01` to the latch register
//! captures the elapsed time since the reference instant (recorded at the
//! first latch) into the seconds/minutes/hours/days registers; a day counter
//! that needs ten bits spills into the flags register.

use vstd::prelude::*;

use crate::utils::{
    get_bit8, get_bit16, set_bit8, set_bit16, spec_bit8, spec_bit16, spec_set_bit8, spec_set_bit16,
};

verus! {

pub const SECS_IN_MIN: u64 = 60;

pub const MINS_IN_HOUR: u64 = 60;

pub const HOURS_IN_DAY: u64 = 24;

pub const DAY_HIGH_BIT: u8 = 0;

pub const HALT_BIT: u8 = 6;

pub const DAY_OVERFLOW_BIT: u8 = 7;

#[derive(Clone, Copy, PartialEq, Eq, Structural)]
pub struct Rtc {
    /// Host-injected wall clock, in seconds from an epoch of its choice.
    pub now: u64,
    /// The reference instant: the wall clock at the first latch.
    pub start: u64,
    /// Whether the reference instant has been recorded yet.
    pub started: bool,
    pub seconds: u8,
    pub minutes: u8,
    pub hours: u8,
    pub days: u16,
    pub enabled: bool,
    pub halted: bool,
}

/// The clock after a latch: the reference instant is recorded on the first
/// latch, and the elapsed seconds since it are split into the standard
/// units.  The day counter keeps its low sixteen bits.
pub open spec fn spec_rtc_latch(r: Rtc) -> Rtc {
    let start = if r.started {
        r.start
    } else {
        r.now
    };
    let d_sec = if r.now >= start {
        (r.now - start) as u64
    } else {
        0u64
    };
    let d_min = d_sec / SECS_IN_MIN;
    let d_hour = d_min / MINS_IN_HOUR;
    let d_days = d_hour / HOURS_IN_DAY;
    Rtc {
        start,
        started: true,
        seconds: (d_sec % SECS_IN_MIN) as u8,
        minutes: (d_min % MINS_IN_HOUR) as u8,
        hours: (d_hour % HOURS_IN_DAY) as u8,
        days: (d_days % 0x10000) as u16,
        ..r
    }
}

/// What an RTC register reads as, by selector `$08-$0C`: seconds, minutes,
/// hours, the day counter's low byte, and the flags byte carrying day bit 8,
/// the halt flag and the day-overflow bit.
pub open spec fn spec_rtc_read(r: Rtc, bank: u8) -> u8
    recommends
        0x08 <= bank <= 0x0C,
{
    if bank == 0x08 {
        r.seconds
    } else if bank == 0x09 {
        r.minutes
    } else if bank == 0x0A {
        r.hours
    } else if bank == 0x0B {
        (r.days & 0xFF) as u8
    } else {
        spec_set_bit8(
            spec_set_bit8(
                spec_set_bit8(0u8, DAY_HIGH_BIT, spec_bit16(r.days, 8)),
                HALT_BIT,
                r.halted,
            ),
            DAY_OVERFLOW_BIT,
            spec_bit16(r.days, 9),
        )
    }
}

/// The clock after a register write.  Selectors `$08-$0C` overwrite the
/// latched units; any other selector drives the latch state machine: `$00`
/// disarms it and `$01` on a disarmed clock arms it and latches.
pub open spec fn spec_rtc_write(r: Rtc, bank: u8, val: u8) -> Rtc {
    if bank == 0x08 {
        Rtc { seconds: val, ..r }
    } else if bank == 0x09 {
        Rtc { minutes: val, ..r }
    } else if bank == 0x0A {
        Rtc { hours: val, ..r }
    } else if bank == 0x0B {
        Rtc { days: (r.days & 0xFF00) | (val as u16), ..r }
    } else if bank == 0x0C {
        Rtc {
            days: spec_set_bit16(
                spec_set_bit16(r.days, 8, spec_bit8(val, DAY_HIGH_BIT)),
                9,
                spec_bit8(val, DAY_OVERFLOW_BIT),
            ),
            halted: spec_bit8(val, HALT_BIT),
            ..r
        }
    } else {
        if val == 0x00 {
            Rtc { enabled: false, ..r }
        } else if val == 0x01 && !r.enabled {
            spec_rtc_latch(Rtc { enabled: true, ..r })
        } else {
            r
        }
    }
}

impl Rtc {
    pub fn new() -> (r: Rtc)
        ensures
            r == (Rtc {
                now: 0,
                start: 0,
                started: false,
                seconds: 0,
                minutes: 0,
                hours: 0,
                days: 0,
                enabled: false,
                halted: false,
            }),
    {
        Rtc {
            now: 0,
            start: 0,
            started: false,
            seconds: 0,
            minutes: 0,
            hours: 0,
            days: 0,
            enabled: false,
            halted: false,
        }
    }

    /// Inject the host's wall clock, in seconds.
    pub fn set_clock(&mut self, now: u64)
        ensures
            *final(self) == (Rtc { now, ..*old(self) }),
    {
        self.now = now;
    }

    /// Capture the elapsed wall time into the unit registers.
    pub fn latch_time(&mut self)
        ensures
            *final(self) == spec_rtc_latch(*old(self)),
    {
        if !self.started {
            self.started = true;
            self.start = self.now;
        }
        let d_sec = if self.now >= self.start {
            self.now - self.start
        } else {
            0
        };
        self.seconds = (d_sec % SECS_IN_MIN) as u8;
        let d_min = d_sec / SECS_IN_MIN;
        self.minutes = (d_min % MINS_IN_HOUR) as u8;
        let d_hour = d_min / MINS_IN_HOUR;
        self.hours = (d_hour % HOURS_IN_DAY) as u8;
        let d_days = d_hour / HOURS_IN_DAY;
        self.days = (d_days % 0x10000) as u16;
    }

    pub fn is_enabled(&self) -> (r: bool)
        ensures
            r == self.enabled,
    {
        self.enabled
    }

    pub fn read_byte(&self, bank: u8) -> (r: u8)
        requires
            0x08 <= bank <= 0x0C,
        ensures
            r == spec_rtc_read(*self, bank),
    {
        if bank == 0x08 {
            self.seconds
        } else if bank == 0x09 {
            self.minutes
        } else if bank == 0x0A {
            self.hours
        } else if bank == 0x0B {
            (self.days & 0xFF) as u8
        } else {
            let mut ret: u8 = 0;
            ret = set_bit8(ret, DAY_HIGH_BIT, get_bit16(self.days, 8));
            ret = set_bit8(ret, HALT_BIT, self.halted);
            ret = set_bit8(ret, DAY_OVERFLOW_BIT, get_bit16(self.days, 9));
            ret
        }
    }

    pub fn write_byte(&mut self, bank: u8, val: u8)
        ensures
            *final(self) == spec_rtc_write(*old(self), bank, val),
    {
        if bank == 0x08 {
            self.seconds = val;
        } else if bank == 0x09 {
            self.minutes = val;
        } else if bank == 0x0A {
            self.hours = val;
        } else if bank == 0x0B {
            self.days = (self.days & 0xFF00) | (val as u16);
        } else if bank == 0x0C {
            self.days = set_bit16(self.days, 8, get_bit8(val, DAY_HIGH_BIT));
            self.days = set_bit16(self.days, 9, get_bit8(val, DAY_OVERFLOW_BIT));
            self.halted = get_bit8(val, HALT_BIT);
        } else {
            if val == 0x00 {
                self.enabled = false;
            } else if val == 0x01 && !self.enabled {
                self.enabled = true;
                self.latch_time();
            }
        }
    }
}

} // verus!
