//! The per-scanline LCD mode state machine.  A visible scanline is OAM scan
//! (80 dots), then pixel transfer (172 dots), then horizontal blank (204
//! dots); after the horizontal blank that ends line 142 the machine renders
//! its final visible line and enters the vertical blank, which lasts until
//! the line counter has passed 153 and wraps to 0.

use vstd::prelude::*;

verus! {

pub const HBLANK_LEN: usize = 204;

pub const VBLANK_LEN: usize = 456;

pub const OAM_READ_LEN: usize = 80;

pub const VRAM_READ_LEN: usize = 172;

pub const VBLANK_LINE_START: u8 = 143;

pub const VBLANK_LINE_END: u8 = 153;

/// Dot cycles in one full scanline, and in one full frame of 154 lines.
pub const SCANLINE_LEN: usize = 456;

pub const FRAME_LEN: usize = 70224;

#[derive(PartialEq, Eq, Structural, Clone, Copy, Debug)]
pub enum LcdResults {
    NoAction,
    RenderFrame,
    RenderLine,
}

#[derive(PartialEq, Eq, Structural, Clone, Copy, Debug)]
pub enum LcdModeType {
    HBLANK,
    VBLANK,
    OAMReadMode,
    VRAMReadMode,
}

/// The STAT mode index of each mode.
pub open spec fn spec_mode_idx(m: LcdModeType) -> u8 {
    match m {
        LcdModeType::HBLANK => 0,
        LcdModeType::VBLANK => 1,
        LcdModeType::OAMReadMode => 2,
        LcdModeType::VRAMReadMode => 3,
    }
}

/// How many dot cycles a mode lasts before it hands over to the next.
pub open spec fn spec_mode_len(m: LcdModeType) -> int {
    match m {
        LcdModeType::HBLANK => 204,
        LcdModeType::VBLANK => 456,
        LcdModeType::OAMReadMode => 80,
        LcdModeType::VRAMReadMode => 172,
    }
}

impl LcdModeType {
    pub fn get_idx(&self) -> (r: u8)
        ensures
            r == spec_mode_idx(*self),
    {
        match *self {
            LcdModeType::HBLANK => 0,
            LcdModeType::VBLANK => 1,
            LcdModeType::OAMReadMode => 2,
            LcdModeType::VRAMReadMode => 3,
        }
    }
}

#[derive(PartialEq, Eq, Structural, Clone, Copy)]
pub struct Lcd {
    pub mode: LcdModeType,
    pub cycles: usize,
    pub line: u8,
}

impl Lcd {
    /// A reachable machine state: the line counter is in range for the mode
    /// and the accumulated cycles have not yet reached the mode's length.
    pub open spec fn wf(self) -> bool {
        &&& self.cycles < spec_mode_len(self.mode)
        &&& (self.mode is VBLANK ==> VBLANK_LINE_START <= self.line <= VBLANK_LINE_END)
        &&& (!(self.mode is VBLANK) ==> self.line < VBLANK_LINE_START)
    }

    /// How many dot cycles of the current frame have elapsed: full lines
    /// behind us, full modes of the current line, and the cycles accumulated
    /// in the current mode.
    pub open spec fn frame_pos(self) -> int {
        self.line as int * 456 + (match self.mode {
            LcdModeType::OAMReadMode => 0int,
            LcdModeType::VRAMReadMode => 80int,
            LcdModeType::HBLANK => 252int,
            LcdModeType::VBLANK => 0int,
        }) + self.cycles as int
    }

    pub fn new() -> (l: Lcd)
        ensures
            l == (Lcd { mode: LcdModeType::HBLANK, cycles: 0, line: 0 }),
            l.wf(),
    {
        Lcd { mode: LcdModeType::HBLANK, cycles: 0, line: 0 }
    }

    pub fn get_line(&self) -> (r: u8)
        ensures
            r == self.line,
    {
        self.line
    }

    pub fn get_mode(&self) -> (r: LcdModeType)
        ensures
            r == self.mode,
    {
        self.mode
    }

    pub fn step(&mut self, cycles: u8) -> (result: LcdResults)
        requires
            old(self).cycles + cycles <= usize::MAX,
        ensures
            (*final(self), result) == spec_lcd_step(*old(self), cycles),
            old(self).wf() ==> final(self).wf(),
    {
        self.cycles = self.cycles + cycles as usize;
        let mut result = LcdResults::NoAction;

        match self.mode {
            LcdModeType::HBLANK => {
                if self.cycles >= HBLANK_LEN {
                    self.cycles = 0;
                    self.line = if self.line == 255 { 0 } else { self.line + 1 };
                    if self.line == VBLANK_LINE_START {
                        self.mode = LcdModeType::VBLANK;
                        result = LcdResults::RenderFrame;
                    } else {
                        self.mode = LcdModeType::OAMReadMode;
                    }
                }
            },
            LcdModeType::VBLANK => {
                if self.cycles >= VBLANK_LEN {
                    self.cycles = 0;
                    self.line = if self.line == 255 { 0 } else { self.line + 1 };
                    if self.line > VBLANK_LINE_END {
                        self.mode = LcdModeType::OAMReadMode;
                        self.line = 0;
                    }
                }
            },
            LcdModeType::OAMReadMode => {
                if self.cycles >= OAM_READ_LEN {
                    self.cycles = 0;
                    self.mode = LcdModeType::VRAMReadMode;
                }
            },
            LcdModeType::VRAMReadMode => {
                if self.cycles >= VRAM_READ_LEN {
                    self.cycles = 0;
                    self.mode = LcdModeType::HBLANK;
                    result = LcdResults::RenderLine;
                }
            },
        }
        result
    }
}

/// The state machine's transition: accumulate the cycles, and when the
/// current mode's length is reached move to the next mode, bumping the line
/// counter at the end of each horizontal or vertical blank.  Entering the
/// vertical blank reports a finished frame; leaving pixel transfer reports a
/// finished line.
pub open spec fn spec_lcd_step(l: Lcd, cycles: u8) -> (Lcd, LcdResults) {
    let c = l.cycles + cycles;
    match l.mode {
        LcdModeType::HBLANK => {
            if c >= 204 {
                let line = if l.line == 255 { 0u8 } else { (l.line + 1) as u8 };
                if line == VBLANK_LINE_START {
                    (Lcd { mode: LcdModeType::VBLANK, cycles: 0, line }, LcdResults::RenderFrame)
                } else {
                    (Lcd { mode: LcdModeType::OAMReadMode, cycles: 0, line }, LcdResults::NoAction)
                }
            } else {
                (Lcd { cycles: c as usize, ..l }, LcdResults::NoAction)
            }
        },
        LcdModeType::VBLANK => {
            if c >= 456 {
                let line = if l.line == 255 { 0u8 } else { (l.line + 1) as u8 };
                if line > VBLANK_LINE_END {
                    (
                        Lcd { mode: LcdModeType::OAMReadMode, cycles: 0, line: 0 },
                        LcdResults::NoAction,
                    )
                } else {
                    (Lcd { cycles: 0, line, ..l }, LcdResults::NoAction)
                }
            } else {
                (Lcd { cycles: c as usize, ..l }, LcdResults::NoAction)
            }
        },
        LcdModeType::OAMReadMode => {
            if c >= 80 {
                (Lcd { mode: LcdModeType::VRAMReadMode, cycles: 0, ..l }, LcdResults::NoAction)
            } else {
                (Lcd { cycles: c as usize, ..l }, LcdResults::NoAction)
            }
        },
        LcdModeType::VRAMReadMode => {
            if c >= 172 {
                (Lcd { mode: LcdModeType::HBLANK, cycles: 0, ..l }, LcdResults::RenderLine)
            } else {
                (Lcd { cycles: c as usize, ..l }, LcdResults::NoAction)
            }
        },
    }
}

/// The frame budget.  A scanline is 80 + 172 + 204 = 456 dot cycles and a
/// frame is 154 of them, 70224: the 143 lines stepped through visible modes
/// plus the final visible line and the ten blank lines spent in the vertical
/// blank.  In a reachable state the frame position never reaches 70224, one
/// step advances it by at most the cycles fed in, and the position only
/// falls back (to 0) when the frame boundary at 70224 is crossed.
pub proof fn lemma_frame_budget(l: Lcd, cycles: u8)
    requires
        l.wf(),
    ensures
        OAM_READ_LEN + VRAM_READ_LEN + HBLANK_LEN == SCANLINE_LEN,
        FRAME_LEN == 144 * SCANLINE_LEN + 10 * SCANLINE_LEN,
        0 <= l.frame_pos() < FRAME_LEN,
        spec_lcd_step(l, cycles).0.frame_pos() <= l.frame_pos() + cycles,
        spec_lcd_step(l, cycles).0.frame_pos() < l.frame_pos() ==> {
            &&& l.frame_pos() + cycles >= FRAME_LEN
            &&& spec_lcd_step(l, cycles).0.frame_pos() == 0
        },
        spec_lcd_step(l, cycles).1 == LcdResults::RenderFrame ==> spec_lcd_step(
            l,
            cycles,
        ).0.frame_pos() == 143 * SCANLINE_LEN,
{
}

} // verus!

