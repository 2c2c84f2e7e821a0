//! Bit and byte utilities shared by every component: single-bit access on
//! bytes and words, 8/16-bit merge and split, the half/full carry and borrow
//! predicates behind the CPU flags, the 2-bit palette pack/unpack pair, and
//! the fixed 4-shade grey palette of the display.

use vstd::prelude::*;

verus! {

pub const SCREEN_WIDTH: usize = 160;

pub const SCREEN_HEIGHT: usize = 144;

pub const DISPLAY_BUFFER: usize = SCREEN_WIDTH * SCREEN_HEIGHT * 4;

/// One point of the 256x256 pixel plane the background scrolls over.
#[derive(Clone, Copy, PartialEq, Eq, Structural)]
pub struct Point {
    pub x: u8,
    pub y: u8,
}

impl Point {
    pub fn new(x: u8, y: u8) -> (p: Point)
        ensures
            p == (Point { x, y }),
    {
        Point { x, y }
    }
}

/// The fixed 4-shade grey palette, one RGBA quadruple per 2-bit shade.
/// Shades outside 0..4 render as white, the same as shade 0.
pub open spec fn spec_palette(shade: u8) -> Seq<u8> {
    if shade == 1 {
        seq![128u8, 128u8, 128u8, 255u8]
    } else if shade == 2 {
        seq![64u8, 64u8, 64u8, 255u8]
    } else if shade == 3 {
        seq![0u8, 0u8, 0u8, 255u8]
    } else {
        seq![255u8, 255u8, 255u8, 255u8]
    }
}

pub fn palette_color(shade: u8) -> (c: [u8; 4])
    ensures
        c@ == spec_palette(shade),
{
    let c: [u8; 4] = if shade == 1 {
        [128, 128, 128, 255]
    } else if shade == 2 {
        [64, 64, 64, 255]
    } else if shade == 3 {
        [0, 0, 0, 255]
    } else {
        [255, 255, 255, 255]
    };
    proof {
        assert(c@ =~= spec_palette(shade));
    }
    c
}

/// Whether bit `bit` (0 = least significant) of `v` is set.
pub open spec fn spec_bit8(v: u8, bit: u8) -> bool
    recommends
        bit < 8,
{
    v & (1u8 << bit) != 0
}

pub fn get_bit8(v: u8, bit: u8) -> (r: bool)
    requires
        bit < 8,
    ensures
        r == spec_bit8(v, bit),
{
    v & (1u8 << bit) != 0
}

/// `v` with bit `bit` forced to `on`.
pub open spec fn spec_set_bit8(v: u8, bit: u8, on: bool) -> u8
    recommends
        bit < 8,
{
    if on {
        v | (1u8 << bit)
    } else {
        v & !(1u8 << bit)
    }
}

pub fn set_bit8(v: u8, bit: u8, on: bool) -> (r: u8)
    requires
        bit < 8,
    ensures
        r == spec_set_bit8(v, bit, on),
{
    if on {
        v | (1u8 << bit)
    } else {
        v & !(1u8 << bit)
    }
}

pub open spec fn spec_bit16(v: u16, bit: u16) -> bool
    recommends
        bit < 16,
{
    v & (1u16 << bit) != 0
}

pub fn get_bit16(v: u16, bit: u16) -> (r: bool)
    requires
        bit < 16,
    ensures
        r == spec_bit16(v, bit),
{
    v & (1u16 << bit) != 0
}

pub open spec fn spec_set_bit16(v: u16, bit: u16, on: bool) -> u16
    recommends
        bit < 16,
{
    if on {
        v | (1u16 << bit)
    } else {
        v & !(1u16 << bit)
    }
}

pub fn set_bit16(v: u16, bit: u16, on: bool) -> (r: u16)
    requires
        bit < 16,
    ensures
        r == spec_set_bit16(v, bit, on),
{
    if on {
        v | (1u16 << bit)
    } else {
        v & !(1u16 << bit)
    }
}

/// The word whose high byte is `high` and low byte is `low`.
pub open spec fn spec_merge_bytes(high: u8, low: u8) -> u16 {
    ((high as u16) << 8) | (low as u16)
}

pub fn merge_bytes(high: u8, low: u8) -> (r: u16)
    ensures
        r == spec_merge_bytes(high, low),
        r == high as int * 256 + low as int,
{
    let r = ((high as u16) << 8) | (low as u16);
    proof {
        lemma_merge_split(high, low);
    }
    r
}

pub open spec fn spec_high_byte(v: u16) -> u8 {
    (v >> 8) as u8
}

pub fn high_byte(v: u16) -> (r: u8)
    ensures
        r == spec_high_byte(v),
        r == v as int / 256,
{
    proof {
        lemma_byte_halves(v);
    }
    (v >> 8) as u8
}

pub open spec fn spec_low_byte(v: u16) -> u8 {
    (v & 0xFF) as u8
}

pub fn low_byte(v: u16) -> (r: u8)
    ensures
        r == spec_low_byte(v),
        r == v as int % 256,
{
    proof {
        lemma_byte_halves(v);
    }
    (v & 0xFF) as u8
}

/// Splitting a merged word gives the bytes back, and merging the halves of a
/// word gives the word back.
pub proof fn lemma_merge_split(high: u8, low: u8)
    ensures
        spec_high_byte(spec_merge_bytes(high, low)) == high,
        spec_low_byte(spec_merge_bytes(high, low)) == low,
        spec_merge_bytes(high, low) == high as int * 256 + low as int,
{
    assert((((high as u16) << 8) | (low as u16)) >> 8 == high as u16) by (bit_vector);
    assert(((((high as u16) << 8) | (low as u16)) & 0xFF) == low as u16) by (bit_vector);
    assert((((high as u16) << 8) | (low as u16)) == high as u16 * 256 + low as u16)
        by (bit_vector);
}

pub proof fn lemma_byte_halves(v: u16)
    ensures
        spec_merge_bytes(spec_high_byte(v), spec_low_byte(v)) == v,
        spec_high_byte(v) == v as int / 256,
        spec_low_byte(v) == v as int % 256,
{
    assert(((((v >> 8) as u8) as u16) << 8) | (((v & 0xFF) as u8) as u16) == v) by (bit_vector);
    assert((v >> 8) as u8 == v / 256) by (bit_vector);
    assert((v & 0xFF) as u8 == v % 256) by (bit_vector);
}

/// Masking with `m` never exceeds `m`; the workhorse bound for carry sums.
pub proof fn lemma_and8_le(a: u8, m: u8)
    ensures
        a & m <= m,
{
    assert(a & m <= m) by (bit_vector);
}

pub proof fn lemma_and16_le(a: u16, m: u16)
    ensures
        a & m <= m,
{
    assert(a & m <= m) by (bit_vector);
}

/// Whether `lhs + rhs` carries out of the low nibble.
pub open spec fn spec_h_carry_u8(lhs: u8, rhs: u8) -> bool {
    (lhs & 0xF) + (rhs & 0xF) > 0xF
}

pub fn check_h_carry_u8(lhs: u8, rhs: u8) -> (r: bool)
    ensures
        r == spec_h_carry_u8(lhs, rhs),
{
    proof {
        lemma_and8_le(lhs, 0xF);
        lemma_and8_le(rhs, 0xF);
    }
    (lhs & 0xF) + (rhs & 0xF) > 0xF
}

/// Whether `lhs + rhs` carries out of bit 11.
pub open spec fn spec_h_carry_u16(lhs: u16, rhs: u16) -> bool {
    (lhs & 0xFFF) + (rhs & 0xFFF) > 0xFFF
}

pub fn check_h_carry_u16(lhs: u16, rhs: u16) -> (r: bool)
    ensures
        r == spec_h_carry_u16(lhs, rhs),
{
    proof {
        lemma_and16_le(lhs, 0xFFF);
        lemma_and16_le(rhs, 0xFFF);
    }
    (lhs & 0xFFF) + (rhs & 0xFFF) > 0xFFF
}

/// Whether `lhs - rhs` borrows into the low nibble.
pub open spec fn spec_h_borrow_u8(lhs: u8, rhs: u8) -> bool {
    (lhs & 0xF) < (rhs & 0xF)
}

pub fn check_h_borrow_u8(lhs: u8, rhs: u8) -> (r: bool)
    ensures
        r == spec_h_borrow_u8(lhs, rhs),
{
    (lhs & 0xF) < (rhs & 0xF)
}

pub open spec fn spec_h_borrow_u16(lhs: u16, rhs: u16) -> bool {
    (lhs & 0xF) < (rhs & 0xF)
}

pub fn check_h_borrow_u16(lhs: u16, rhs: u16) -> (r: bool)
    ensures
        r == spec_h_borrow_u16(lhs, rhs),
{
    (lhs & 0xF) < (rhs & 0xF)
}

/// Whether `lhs + rhs` carries out of the byte.
pub open spec fn spec_c_carry_u8(lhs: u8, rhs: u8) -> bool {
    lhs + rhs > 0xFF
}

pub fn check_c_carry_u8(lhs: u8, rhs: u8) -> (r: bool)
    ensures
        r == spec_c_carry_u8(lhs, rhs),
{
    (lhs as u16) + (rhs as u16) > 0xFF
}

pub open spec fn spec_c_carry_u16(lhs: u16, rhs: u16) -> bool {
    lhs + rhs > 0xFFFF
}

pub fn check_c_carry_u16(lhs: u16, rhs: u16) -> (r: bool)
    ensures
        r == spec_c_carry_u16(lhs, rhs),
{
    (lhs as u32) + (rhs as u32) > 0xFFFF
}

/// Whether `lhs - rhs` borrows out of the byte.
pub open spec fn spec_c_borrow_u8(lhs: u8, rhs: u8) -> bool {
    lhs < rhs
}

pub fn check_c_borrow_u8(lhs: u8, rhs: u8) -> (r: bool)
    ensures
        r == spec_c_borrow_u8(lhs, rhs),
{
    lhs < rhs
}

pub open spec fn spec_c_borrow_u16(lhs: u16, rhs: u16) -> bool {
    lhs < rhs
}

pub fn check_c_borrow_u16(lhs: u16, rhs: u16) -> (r: bool)
    ensures
        r == spec_c_borrow_u16(lhs, rhs),
{
    lhs < rhs
}

/// The four 2-bit fields of a palette register, low bits first.
pub open spec fn spec_unpack_u8(val: u8) -> Seq<u8> {
    seq![val & 0b11, (val >> 2) & 0b11, (val >> 4) & 0b11, (val >> 6) & 0b11]
}

pub fn unpack_u8(val: u8) -> (r: [u8; 4])
    ensures
        r@ == spec_unpack_u8(val),
        forall|i: int| 0 <= i < 4 ==> r@[i] < 4,
{
    let r: [u8; 4] = [val & 0b11, (val >> 2) & 0b11, (val >> 4) & 0b11, (val >> 6) & 0b11];
    proof {
        assert(r@ =~= spec_unpack_u8(val));
        assert(val & 0b11 < 4 && (val >> 2) & 0b11 < 4 && (val >> 4) & 0b11 < 4 && (val >> 6)
            & 0b11 < 4) by (bit_vector);
    }
    r
}

/// The palette register byte whose four 2-bit fields are `a[0]..a[3]`.
pub open spec fn spec_pack_u8(s: Seq<u8>) -> u8
    recommends
        s.len() >= 4,
{
    s[0] | (s[1] << 2) | (s[2] << 4) | (s[3] << 6)
}

pub fn pack_u8(a: &[u8]) -> (r: u8)
    requires
        a@.len() >= 4,
    ensures
        r == spec_pack_u8(a@),
{
    let mut output: u8 = a[0];
    output |= a[1] << 2;
    output |= a[2] << 4;
    output |= a[3] << 6;
    output
}

/// Packing the fields unpacked from a byte gives the byte back.
pub proof fn lemma_pack_unpack(val: u8)
    ensures
        spec_pack_u8(spec_unpack_u8(val)) == val,
{
    assert((val & 0b11) | (((val >> 2) & 0b11) << 2) | (((val >> 4) & 0b11) << 4) | (((val >> 6)
        & 0b11) << 6) == val) by (bit_vector);
}

} // verus!
