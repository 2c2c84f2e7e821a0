//! The I/O register block at `$FF00-$FF3F`: the joypad matrix at `$FF00`,
//! the timer at `$FF04-$FF07`, and plain byte storage for the rest.
//!
//! The joypad register selects a button bank with two active-low bits;
//! reading returns an active-low 4-bit mask of the selected bank, or 0 when
//! neither or both banks are selected.

use vstd::prelude::*;

use crate::timer::{Timer, DIV, TAC};
use crate::utils::{get_bit8, spec_bit8};

verus! {

pub const IO_START: u16 = 0xFF00;

pub const IO_STOP: u16 = 0xFF3F;

pub const JOYPAD_ADDR: u16 = 0xFF00;

pub const IO_SIZE: usize = 64;

pub const FACE_SELECT_BIT: u8 = 5;

pub const DPAD_SELECT_BIT: u8 = 4;

#[derive(Clone, Copy, PartialEq, Eq, Structural)]
pub enum Buttons {
    A,
    B,
    Select,
    Start,
    Right,
    Left,
    Up,
    Down,
}

/// Each button's slot in the pressed-state table: face buttons first, then
/// the directional pad.
pub open spec fn spec_button_idx(b: Buttons) -> int {
    match b {
        Buttons::A => 0,
        Buttons::B => 1,
        Buttons::Select => 2,
        Buttons::Start => 3,
        Buttons::Right => 4,
        Buttons::Left => 5,
        Buttons::Up => 6,
        Buttons::Down => 7,
    }
}

impl Buttons {
    pub fn idx(&self) -> (r: usize)
        ensures
            r == spec_button_idx(*self),
    {
        match *self {
            Buttons::A => 0,
            Buttons::B => 1,
            Buttons::Select => 2,
            Buttons::Start => 3,
            Buttons::Right => 4,
            Buttons::Left => 5,
            Buttons::Up => 6,
            Buttons::Down => 7,
        }
    }
}

/// The I/O block as contracts see it.
#[verifier::ext_equal]
pub ghost struct IoV {
    pub buttons: Seq<bool>,
    pub dpad_selected: bool,
    pub face_selected: bool,
    pub ram: Seq<u8>,
    pub timer: Timer,
}

pub struct IO {
    pub buttons: [bool; 8],
    pub dpad_selected: bool,
    pub face_selected: bool,
    pub ram: Vec<u8>,
    pub timer: Timer,
}

impl View for IO {
    type V = IoV;

    open spec fn view(&self) -> IoV {
        IoV {
            buttons: self.buttons@,
            dpad_selected: self.dpad_selected,
            face_selected: self.face_selected,
            ram: self.ram@,
            timer: self.timer,
        }
    }
}

impl IoV {
    pub open spec fn wf(self) -> bool {
        &&& self.buttons.len() == 8
        &&& self.ram.len() == IO_SIZE
    }
}

/// The I/O block at power-on: everything cleared.
pub open spec fn spec_io_boot() -> IoV {
    IoV {
        buttons: Seq::new(8, |i: int| false),
        dpad_selected: false,
        face_selected: false,
        ram: Seq::new(IO_SIZE as nat, |i: int| 0u8),
        timer: Timer { counter: 0, div: 0, tima: 0, tma: 0, tac: 0, tima_cooldown: 0 },
    }
}

/// An active-low pressed bit: 0 when pressed, 1 when released.
pub open spec fn spec_btn_bit(pressed: bool) -> u8 {
    if pressed {
        0u8
    } else {
        1u8
    }
}

/// What the joypad register reads as: 0 when the two bank selectors agree,
/// otherwise the active-low mask of the selected bank, directional pad
/// (Right, Left, Up, Down) or face (A, B, Select, Start) in bits 0-3.
pub open spec fn spec_joypad_read(v: IoV) -> u8 {
    if v.face_selected == v.dpad_selected {
        0u8
    } else if v.dpad_selected {
        spec_btn_bit(v.buttons[4]) | (spec_btn_bit(v.buttons[5]) << 1) | (spec_btn_bit(
            v.buttons[6],
        ) << 2) | (spec_btn_bit(v.buttons[7]) << 3)
    } else {
        spec_btn_bit(v.buttons[0]) | (spec_btn_bit(v.buttons[1]) << 1) | (spec_btn_bit(
            v.buttons[2],
        ) << 2) | (spec_btn_bit(v.buttons[3]) << 3)
    }
}

/// What an I/O read returns: the timer registers and the joypad are live,
/// everything else comes from plain storage.
pub open spec fn spec_io_read(v: IoV, addr: u16) -> u8
    recommends
        IO_START <= addr <= IO_STOP,
{
    if DIV <= addr <= TAC {
        v.timer.spec_read(addr)
    } else if addr == JOYPAD_ADDR {
        spec_joypad_read(v)
    } else {
        v.ram[addr - IO_START]
    }
}

/// The block after an I/O write: the timer registers and the joypad bank
/// selectors are live (the selector bits are active-low), everything else is
/// plain storage.
pub open spec fn spec_io_write(v: IoV, addr: u16, val: u8) -> IoV
    recommends
        IO_START <= addr <= IO_STOP,
{
    if DIV <= addr <= TAC {
        IoV { timer: v.timer.spec_write(addr, val), ..v }
    } else if addr == JOYPAD_ADDR {
        IoV {
            face_selected: !spec_bit8(val, FACE_SELECT_BIT),
            dpad_selected: !spec_bit8(val, DPAD_SELECT_BIT),
            ..v
        }
    } else {
        IoV { ram: v.ram.update(addr - IO_START, val), ..v }
    }
}

impl IO {
    pub fn new() -> (io: IO)
        ensures
            io@.wf(),
            io@ == spec_io_boot(),
    {
        let mut ram: Vec<u8> = Vec::new();
        let mut i: usize = 0;
        while i < IO_SIZE
            invariant
                i <= IO_SIZE,
                ram@.len() == i,
                forall|j: int| 0 <= j < i ==> ram@[j] == 0u8,
            decreases IO_SIZE - i,
        {
            ram.push(0);
            i += 1;
        }
        let io = IO {
            buttons: [false; 8],
            dpad_selected: false,
            face_selected: false,
            ram,
            timer: Timer::new(),
        };
        proof {
            assert(io@.buttons =~= spec_io_boot().buttons);
            assert(io@.ram =~= spec_io_boot().ram);
            assert(io@ =~= spec_io_boot());
        }
        io
    }

    pub fn read_u8(&self, addr: u16) -> (r: u8)
        requires
            IO_START <= addr <= IO_STOP,
            self@.wf(),
        ensures
            r == spec_io_read(self@, addr),
    {
        if DIV <= addr && addr <= TAC {
            self.timer.read_timer(addr)
        } else if addr == JOYPAD_ADDR {
            self.read_joypad()
        } else {
            let relative_addr = addr - IO_START;
            self.ram[relative_addr as usize]
        }
    }

    fn read_joypad(&self) -> (r: u8)
        ensures
            r == spec_joypad_read(self@),
    {
        if self.face_selected == self.dpad_selected {
            return 0;
        }
        if self.dpad_selected {
            let b0 = if self.buttons[4] {
                0u8
            } else {
                1u8
            };
            let b1 = if self.buttons[5] {
                0u8
            } else {
                1u8
            };
            let b2 = if self.buttons[6] {
                0u8
            } else {
                1u8
            };
            let b3 = if self.buttons[7] {
                0u8
            } else {
                1u8
            };
            b0 | (b1 << 1) | (b2 << 2) | (b3 << 3)
        } else {
            let b0 = if self.buttons[0] {
                0u8
            } else {
                1u8
            };
            let b1 = if self.buttons[1] {
                0u8
            } else {
                1u8
            };
            let b2 = if self.buttons[2] {
                0u8
            } else {
                1u8
            };
            let b3 = if self.buttons[3] {
                0u8
            } else {
                1u8
            };
            b0 | (b1 << 1) | (b2 << 2) | (b3 << 3)
        }
    }

    /// Record a button going down or up.
    pub fn set_button(&mut self, button: Buttons, pressed: bool)
        ensures
            final(self)@ == (IoV {
                buttons: old(self)@.buttons.update(spec_button_idx(button), pressed),
                ..old(self)@
            }),
    {
        let idx = button.idx();
        self.buttons[idx] = pressed;
        proof {
            assert(self@ =~= (IoV {
                buttons: old(self)@.buttons.update(spec_button_idx(button), pressed),
                ..old(self)@
            }));
        }
    }

    /// Advance the timer; reports whether the timer interrupt was raised.
    pub fn update_timer(&mut self, cycles: u8) -> (interrupt: bool)
        ensures
            final(self)@ == (IoV {
                timer: crate::timer::spec_timer_steps(old(self)@.timer, 4 * cycles as int).0,
                ..old(self)@
            }),
            interrupt == crate::timer::spec_timer_steps(old(self)@.timer, 4 * cycles as int).1,
    {
        self.timer.tick(cycles)
    }

    pub fn write_u8(&mut self, addr: u16, val: u8)
        requires
            IO_START <= addr <= IO_STOP,
            old(self)@.wf(),
        ensures
            final(self)@.wf(),
            final(self)@ == spec_io_write(old(self)@, addr, val),
    {
        if DIV <= addr && addr <= TAC {
            self.timer.write_timer(addr, val);
        } else if addr == JOYPAD_ADDR {
            self.face_selected = !get_bit8(val, FACE_SELECT_BIT);
            self.dpad_selected = !get_bit8(val, DPAD_SELECT_BIT);
        } else {
            let relative_addr = addr - IO_START;
            self.ram[relative_addr as usize] = val;
        }
        proof {
            assert(self@ =~= spec_io_write(old(self)@, addr, val));
        }
    }
}

} // verus!
