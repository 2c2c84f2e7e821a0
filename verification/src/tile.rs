//! One 8x8 tile of 2-bit pixels.  VRAM stores a tile as 16 bytes, two per
//! row: bit `b` of the first byte is the low bit and bit `b` of the second
//! byte the high bit of pixel `7 - b`.  This type keeps the decoded pixels
//! and is the single place that packs and unpacks the VRAM byte layout.

use vstd::prelude::*;

use crate::utils::{get_bit8, set_bit8, spec_bit8, spec_set_bit8};

verus! {

#[derive(Clone, Copy)]
pub struct Tile {
    pub pixels: [[u8; 8]; 8],
}

impl View for Tile {
    type V = Seq<Seq<u8>>;

    open spec fn view(&self) -> Seq<Seq<u8>> {
        Seq::new(8, |r: int| Seq::new(8, |c: int| self.pixels@[r]@[c]))
    }
}

/// The blank tile: every pixel is colour 0.
pub open spec fn spec_tile_clear() -> Seq<Seq<u8>> {
    Seq::new(8, |r: int| Seq::new(8, |c: int| 0u8))
}

/// The tile after one VRAM byte write: the written byte replaces one bit
/// plane (`offset % 2`) of one row (`offset / 2`); bit `7 - c` of the byte
/// lands in the plane bit of the pixel at column `c`.
pub open spec fn spec_tile_write(v: Seq<Seq<u8>>, offset: u16, val: u8) -> Seq<Seq<u8>>
    recommends
        offset < 16,
{
    let row = offset as int / 2;
    let plane = (offset % 2) as u8;
    v.update(
        row,
        Seq::new(8, |c: int| spec_set_bit8(v[row][c], plane, spec_bit8(val, (7 - c) as u8))),
    )
}

/// The first `n` bits of the VRAM byte at `offset`, as read back from the
/// pixels: columns 0 to `n - 1` of the row's plane, column 0 highest.
pub open spec fn spec_tile_read_n(row: Seq<u8>, plane: u8, n: int) -> u8
    decreases n,
{
    if n <= 0 {
        0u8
    } else {
        (spec_tile_read_n(row, plane, n - 1) << 1) | (if spec_bit8(row[n - 1], plane) {
            1u8
        } else {
            0u8
        })
    }
}

/// The VRAM byte at `offset`: bit `b` is the plane bit of pixel `7 - b`.
pub open spec fn spec_tile_read(v: Seq<Seq<u8>>, offset: u16) -> u8
    recommends
        offset < 16,
{
    spec_tile_read_n(v[offset as int / 2], (offset % 2) as u8, 8)
}

impl Tile {
    pub fn new() -> (t: Tile)
        ensures
            t@ == spec_tile_clear(),
    {
        let t = Tile { pixels: [[0; 8]; 8] };
        proof {
            assert forall|r: int| 0 <= r < 8 implies t@[r] =~= spec_tile_clear()[r] by {}
            assert(t@ =~= spec_tile_clear());
        }
        t
    }

    /// The eight pixel colours of one row, leftmost first.
    pub fn get_row(&self, row: usize) -> (r: [u8; 8])
        requires
            row < 8,
        ensures
            r@ == self@[row as int],
    {
        let r = self.pixels[row];
        proof {
            assert(r@ =~= self@[row as int]);
        }
        r
    }

    /// Read one byte of the packed VRAM form back out of the pixels.
    pub fn read_u8(&self, offset: u16) -> (r: u8)
        requires
            offset < 16,
        ensures
            r == spec_tile_read(self@, offset),
    {
        let row = (offset / 2) as usize;
        let plane = (offset % 2) as u8;
        let pixels = self.pixels[row];
        let mut ret: u8 = 0;
        let ghost rowv = self@[row as int];
        proof {
            assert(rowv =~= Seq::new(8, |c: int| pixels@[c]));
        }
        let mut i: usize = 0;
        while i < 8
            invariant
                i <= 8,
                plane < 8,
                pixels@ =~= Seq::new(8, |c: int| rowv[c]),
                ret == spec_tile_read_n(rowv, plane, i as int),
            decreases 8 - i,
        {
            let b = get_bit8(pixels[i], plane);
            ret = (ret << 1) | (if b {
                1
            } else {
                0
            });
            i += 1;
        }
        ret
    }

    /// Store one byte of the packed VRAM form into the pixels.
    pub fn write_u8(&mut self, offset: u16, val: u8)
        requires
            offset < 16,
        ensures
            final(self)@ == spec_tile_write(old(self)@, offset, val),
    {
        let row = (offset / 2) as usize;
        let plane = (offset % 2) as u8;
        let mut pixels = self.pixels[row];
        let ghost oldrow = old(self)@[row as int];
        let mut i: usize = 0;
        while i < 8
            invariant
                i <= 8,
                plane < 8,
                row < 8,
                pixels@.len() == 8,
                forall|c: int|
                    0 <= c < i ==> pixels@[c] == spec_set_bit8(
                        oldrow[c],
                        plane,
                        spec_bit8(val, (7 - c) as u8),
                    ),
                forall|c: int| i <= c < 8 ==> pixels@[c] == oldrow[c],
            decreases 8 - i,
        {
            let bit = get_bit8(val, 7 - (i as u8));
            pixels[i] = set_bit8(pixels[i], plane, bit);
            i += 1;
        }
        self.pixels[row] = pixels;
        proof {
            let newv = spec_tile_write(old(self)@, offset, val);
            assert forall|r: int| 0 <= r < 8 implies self@[r] =~= newv[r] by {
                if r == row as int {
                    assert(self@[r] =~= Seq::new(8, |c: int| pixels@[c]));
                }
            }
            assert(self@ =~= newv);
        }
    }
}

/// Writing a VRAM byte then reading the same offset gives the byte back,
/// and reading any other offset is unaffected by the write.
pub proof fn lemma_tile_roundtrip(v: Seq<Seq<u8>>, offset: u16, val: u8, other: u16)
    requires
        offset < 16,
        other < 16,
        v.len() == 8,
        forall|r: int| 0 <= r < 8 ==> (#[trigger] v[r]).len() == 8,
    ensures
        spec_tile_read(spec_tile_write(v, offset, val), offset) == val,
        other != offset ==> spec_tile_read(spec_tile_write(v, offset, val), other)
            == spec_tile_read(v, other),
{
    let w = spec_tile_write(v, offset, val);
    let row = offset as int / 2;
    let plane = (offset % 2) as u8;
    lemma_read_row_of_write(v[row], plane, val, 8);
    assert(val >> 0u8 == val) by (bit_vector);
    assert(spec_tile_read(w, offset) == val);
    if other != offset {
        let orow = other as int / 2;
        let oplane = (other % 2) as u8;
        if orow != row {
            assert(w[orow] == v[orow]);
        } else {
            assert(oplane != plane) by {
                assert(offset < 16 && other < 16 && other != offset && offset / 2 == other / 2
                    ==> offset % 2 != other % 2) by (bit_vector);
            }
            lemma_read_other_plane(v[row], plane, oplane, val, 8);
        }
    }
}

/// Reading back the plane just written reconstructs the written byte: the
/// first `n` columns give the byte's top `n` bits.
proof fn lemma_read_row_of_write(row: Seq<u8>, plane: u8, val: u8, n: int)
    requires
        row.len() == 8,
        plane < 8,
        0 <= n <= 8,
    ensures
        spec_tile_read_n(
            Seq::new(8, |c: int| spec_set_bit8(row[c], plane, spec_bit8(val, (7 - c) as u8))),
            plane,
            n,
        ) == val >> ((8 - n) as u8),
    decreases n,
{
    let w = Seq::new(8, |c: int| spec_set_bit8(row[c], plane, spec_bit8(val, (7 - c) as u8)));
    if n == 0 {
        assert(val >> 8u8 == 0) by (bit_vector);
    } else {
        lemma_read_row_of_write(row, plane, val, n - 1);
        lemma_get_set_bit8(row[n - 1], plane, spec_bit8(val, (7 - (n - 1)) as u8));
        lemma_shift_step(val, (8 - n) as u8);
        assert(val >> ((8 - (n - 1)) as u8) == val >> (((8 - n) as u8) + 1) as u8);
    }
}

/// Rebuilding a byte bit by bit from the top: shifting the bits above `k`
/// left and appending bit `k` yields the bits from `k` up.
proof fn lemma_shift_step(v: u8, k: u8)
    requires
        k < 8,
    ensures
        ((v >> ((k + 1) as u8)) << 1) | (if spec_bit8(v, k) {
            1u8
        } else {
            0u8
        }) == v >> k,
{
    assert(k < 8 ==> ((v >> ((k + 1) as u8)) << 1) | (if v & (1u8 << k) != 0 {
        1u8
    } else {
        0u8
    }) == v >> k) by (bit_vector);
}

/// Reading one plane ignores writes to the other plane of the same row.
proof fn lemma_read_other_plane(row: Seq<u8>, plane: u8, oplane: u8, val: u8, n: int)
    requires
        row.len() == 8,
        plane < 8,
        oplane < 8,
        oplane != plane,
        0 <= n <= 8,
    ensures
        spec_tile_read_n(
            Seq::new(8, |c: int| spec_set_bit8(row[c], plane, spec_bit8(val, (7 - c) as u8))),
            oplane,
            n,
        ) == spec_tile_read_n(row, oplane, n),
    decreases n,
{
    if n > 0 {
        lemma_read_other_plane(row, plane, oplane, val, n - 1);
        lemma_get_set_other_bit8(row[n - 1], plane, oplane, spec_bit8(val, (7 - (n - 1)) as u8));
    }
}

/// A tile write keeps every pixel a 2-bit colour: it only touches the two
/// low bit planes.
pub proof fn lemma_tile_write_px_bound(v: Seq<Seq<u8>>, offset: u16, val: u8)
    requires
        offset < 16,
        v.len() == 8,
        forall|r: int| 0 <= r < 8 ==> (#[trigger] v[r]).len() == 8,
        forall|r: int, c: int| 0 <= r < 8 && 0 <= c < 8 ==> v[r][c] < 4,
    ensures
        forall|r: int, c: int|
            0 <= r < 8 && 0 <= c < 8 ==> spec_tile_write(v, offset, val)[r][c] < 4,
{
    let w = spec_tile_write(v, offset, val);
    let row = offset as int / 2;
    let plane = (offset % 2) as u8;
    assert forall|r: int, c: int| 0 <= r < 8 && 0 <= c < 8 implies w[r][c] < 4 by {
        if r == row {
            lemma_set_low_bit_bound(v[r][c], plane, spec_bit8(val, (7 - c) as u8));
        }
    }
}

/// Setting one of the two low bits of a 2-bit value keeps it 2-bit.
proof fn lemma_set_low_bit_bound(x: u8, bit: u8, on: bool)
    requires
        x < 4,
        bit < 2,
    ensures
        spec_set_bit8(x, bit, on) < 4,
{
    assert(x < 4 && bit < 2 ==> (x | (1u8 << bit)) < 4 && (x & !(1u8 << bit)) < 4) by (bit_vector);
}

/// Setting a bit then reading the same bit gives the value set.
pub proof fn lemma_get_set_bit8(x: u8, bit: u8, on: bool)
    requires
        bit < 8,
    ensures
        spec_bit8(spec_set_bit8(x, bit, on), bit) == on,
{
    assert(bit < 8 ==> ((x | (1u8 << bit)) & (1u8 << bit) != 0) && ((x & !(1u8 << bit)) & (1u8
        << bit) == 0)) by (bit_vector);
}

/// Setting a bit leaves every other bit as it was.
pub proof fn lemma_get_set_other_bit8(x: u8, bit: u8, obit: u8, on: bool)
    requires
        bit < 8,
        obit < 8,
        obit != bit,
    ensures
        spec_bit8(spec_set_bit8(x, bit, on), obit) == spec_bit8(x, obit),
{
    assert(bit < 8 && obit < 8 && obit != bit ==> ((x | (1u8 << bit)) & (1u8 << obit) == x & (1u8
        << obit)) && ((x & !(1u8 << bit)) & (1u8 << obit) == x & (1u8 << obit))) by (bit_vector);
}

} // verus!
