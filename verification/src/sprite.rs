//! One OAM entry: raw x/y position (display position is raw minus 8 and 16),
//! tile index, and the four attribute bits of the fourth byte (behind-BG
//! priority, vertical flip, horizontal flip, palette select).

use vstd::prelude::*;

use crate::utils::{get_bit8, set_bit8, spec_bit8, spec_set_bit8, Point};

verus! {

pub const BG_PRIORITY_BIT: u8 = 7;

pub const Y_FLIP_BIT: u8 = 6;

pub const X_FLIP_BIT: u8 = 5;

pub const PALETTE_BIT: u8 = 4;

#[derive(Clone, Copy, PartialEq, Eq, Structural)]
pub struct Sprite {
    pub pos: Point,
    pub tile_num: u8,
    pub bg_priority: bool,
    pub x_flip: bool,
    pub y_flip: bool,
    pub palette1: bool,
}

/// A cleared OAM entry.
pub open spec fn spec_sprite_clear() -> Sprite {
    Sprite {
        pos: Point { x: 0, y: 0 },
        tile_num: 0,
        bg_priority: false,
        x_flip: false,
        y_flip: false,
        palette1: false,
    }
}

/// The attribute byte of a sprite, rebuilt from its four flag bits.
pub open spec fn spec_sprite_flags(s: Sprite) -> u8 {
    spec_set_bit8(
        spec_set_bit8(
            spec_set_bit8(spec_set_bit8(0u8, BG_PRIORITY_BIT, s.bg_priority), Y_FLIP_BIT, s.y_flip),
            X_FLIP_BIT,
            s.x_flip,
        ),
        PALETTE_BIT,
        s.palette1,
    )
}

/// What one OAM byte of the sprite reads as, by `addr % 4`: raw y, raw x,
/// tile index, attribute byte.
pub open spec fn spec_sprite_read(s: Sprite, addr: u16) -> u8 {
    let offset = addr % 4;
    if offset == 0 {
        s.pos.y
    } else if offset == 1 {
        s.pos.x
    } else if offset == 2 {
        s.tile_num
    } else {
        spec_sprite_flags(s)
    }
}

/// The sprite after one OAM byte write, by `addr % 4`.
pub open spec fn spec_sprite_write(s: Sprite, addr: u16, val: u8) -> Sprite {
    let offset = addr % 4;
    if offset == 0 {
        Sprite { pos: Point { x: s.pos.x, y: val }, ..s }
    } else if offset == 1 {
        Sprite { pos: Point { x: val, y: s.pos.y }, ..s }
    } else if offset == 2 {
        Sprite { tile_num: val, ..s }
    } else {
        Sprite {
            bg_priority: spec_bit8(val, BG_PRIORITY_BIT),
            y_flip: spec_bit8(val, Y_FLIP_BIT),
            x_flip: spec_bit8(val, X_FLIP_BIT),
            palette1: spec_bit8(val, PALETTE_BIT),
            ..s
        }
    }
}

/// Writing one OAM byte leaves the sprite's other three bytes as they were.
pub proof fn lemma_sprite_write_other(s: Sprite, wa: u16, ra: u16, val: u8)
    requires
        wa % 4 != ra % 4,
    ensures
        spec_sprite_read(spec_sprite_write(s, wa, val), ra) == spec_sprite_read(s, ra),
{
}

/// Writing an OAM byte reads back: exactly for the position, tile and
/// attribute bits the sprite stores; the attribute byte keeps only its high
/// nibble.
pub proof fn lemma_sprite_write_same(s: Sprite, a: u16, val: u8)
    ensures
        a % 4 != 3 ==> spec_sprite_read(spec_sprite_write(s, a, val), a) == val,
        a % 4 == 3 ==> spec_sprite_read(spec_sprite_write(s, a, val), a) == val & 0xF0,
{
    if a % 4 == 3 {
        lemma_flags_pack(val);
    }
}

/// The attribute byte rebuilt from a written byte's four flag bits is the
/// byte's high nibble.
proof fn lemma_flags_pack(val: u8)
    ensures
        spec_set_bit8(
            spec_set_bit8(
                spec_set_bit8(
                    spec_set_bit8(0u8, BG_PRIORITY_BIT, spec_bit8(val, BG_PRIORITY_BIT)),
                    Y_FLIP_BIT,
                    spec_bit8(val, Y_FLIP_BIT),
                ),
                X_FLIP_BIT,
                spec_bit8(val, X_FLIP_BIT),
            ),
            PALETTE_BIT,
            spec_bit8(val, PALETTE_BIT),
        ) == val & 0xF0,
{
    assert({
        let b7 = if val & (1u8 << 7) != 0 {
            (0u8 | (1u8 << 7))
        } else {
            (0u8 & !(1u8 << 7))
        };
        let b6 = if val & (1u8 << 6) != 0 {
            (b7 | (1u8 << 6))
        } else {
            (b7 & !(1u8 << 6))
        };
        let b5 = if val & (1u8 << 5) != 0 {
            (b6 | (1u8 << 5))
        } else {
            (b6 & !(1u8 << 5))
        };
        let b4 = if val & (1u8 << 4) != 0 {
            (b5 | (1u8 << 4))
        } else {
            (b5 & !(1u8 << 4))
        };
        b4 == val & 0xF0
    }) by (bit_vector);
}

impl Sprite {
    pub fn new() -> (s: Sprite)
        ensures
            s == spec_sprite_clear(),
    {
        Sprite {
            pos: Point::new(0, 0),
            tile_num: 0,
            bg_priority: false,
            x_flip: false,
            y_flip: false,
            palette1: false,
        }
    }

    pub fn get_bg_priority(&self) -> (r: bool)
        ensures
            r == self.bg_priority,
    {
        self.bg_priority
    }

    /// Display coordinates: raw position minus the 8/16 hardware offsets.
    pub fn get_coords(&self) -> (r: (isize, isize))
        ensures
            r.0 == self.pos.x as int - 8,
            r.1 == self.pos.y as int - 16,
    {
        (self.pos.x as isize - 8, self.pos.y as isize - 16)
    }

    pub fn get_tile_num(&self) -> (r: u8)
        ensures
            r == self.tile_num,
    {
        self.tile_num
    }

    pub fn is_x_flipped(&self) -> (r: bool)
        ensures
            r == self.x_flip,
    {
        self.x_flip
    }

    pub fn is_y_flipped(&self) -> (r: bool)
        ensures
            r == self.y_flip,
    {
        self.y_flip
    }

    pub fn use_palette1(&self) -> (r: bool)
        ensures
            r == self.palette1,
    {
        self.palette1
    }

    pub fn read_u8(&self, addr: u16) -> (r: u8)
        ensures
            r == spec_sprite_read(*self, addr),
    {
        let offset = addr % 4;
        if offset == 0 {
            self.pos.y
        } else if offset == 1 {
            self.pos.x
        } else if offset == 2 {
            self.tile_num
        } else {
            let mut ret: u8 = 0;
            ret = set_bit8(ret, BG_PRIORITY_BIT, self.bg_priority);
            ret = set_bit8(ret, Y_FLIP_BIT, self.y_flip);
            ret = set_bit8(ret, X_FLIP_BIT, self.x_flip);
            ret = set_bit8(ret, PALETTE_BIT, self.palette1);
            ret
        }
    }

    pub fn write_u8(&mut self, addr: u16, val: u8)
        ensures
            *final(self) == spec_sprite_write(*old(self), addr, val),
    {
        let offset = addr % 4;
        if offset == 0 {
            self.pos.y = val;
        } else if offset == 1 {
            self.pos.x = val;
        } else if offset == 2 {
            self.tile_num = val;
        } else {
            self.bg_priority = get_bit8(val, BG_PRIORITY_BIT);
            self.y_flip = get_bit8(val, Y_FLIP_BIT);
            self.x_flip = get_bit8(val, X_FLIP_BIT);
            self.palette1 = get_bit8(val, PALETTE_BIT);
        }
    }
}

} // verus!
