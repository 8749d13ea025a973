//! The 64x32 single-bit display surface and the exact XOR-with-wraparound
//! drawing algorithm that sprites apply to it.
//!
//! The engine does not keep a display of its own: the host owns the surface
//! and passes it to each step. This type is that surface, and [`draw_byte`]
//! is the rule a row of sprite pixels applies to it: each set sprite bit
//! flips one pixel, wrapping around both screen edges, and the collision
//! flag reports whether any previously lit pixel was turned off.

use vstd::assert_seqs_equal;
use vstd::pervasive::VecAdditionalExecFns;
use vstd::prelude::*;

verus! {

/// The width of the screen in pixels.
pub const SCREEN_WIDTH: usize = 64;

/// The height of the screen in pixels.
pub const SCREEN_HEIGHT: usize = 32;

/// The host-owned display surface: one bit per pixel, row-major, exactly
/// `SCREEN_WIDTH * SCREEN_HEIGHT` of them.
pub struct Display {
    /// The pixels, row-major: the pixel at `(x, y)` is entry `y * 64 + x`.
    pixels: Vec<bool>,
}

impl View for Display {
    type V = Seq<bool>;

    closed spec fn view(&self) -> Seq<bool> {
        self.pixels@
    }
}

/// Bit `j` of a sprite row, counted from the left: bit 0 is the most
/// significant bit of the byte.
pub open spec fn bit_of(byte: u8, j: int) -> bool
    recommends
        0 <= j < 8,
{
    (byte >> ((7 - j) as u8)) & 1 == 1
}

/// Where the sprite pixel `j` columns right of origin `(x, y)` lands in the
/// row-major grid, wrapping around both screen edges.
pub open spec fn pixel_index(x: int, y: int, j: int) -> int {
    (y % 32) * 64 + (x + j) % 64
}

/// One sprite row applied column by column: the grid after the leftmost `k`
/// sprite bits are XORed on, and whether any of them turned a lit pixel off.
pub open spec fn draw_byte_cols(grid: Seq<bool>, x: int, y: int, byte: u8, k: int) -> (Seq<
    bool,
>, bool)
    decreases k,
{
    if k <= 0 {
        (grid, false)
    } else {
        let (g, c) = draw_byte_cols(grid, x, y, byte, k - 1);
        let j = k - 1;
        if bit_of(byte, j) {
            let idx = pixel_index(x, y, j);
            (g.update(idx, !g[idx]), c || g[idx])
        } else {
            (g, c)
        }
    }
}

/// The grid after one full 8-pixel sprite row is XORed on at `(x, y)`, and
/// the collision flag: true exactly when some set sprite bit met a pixel
/// that was already lit before the XOR.
pub open spec fn spec_draw_byte(grid: Seq<bool>, x: int, y: int, byte: u8) -> (Seq<bool>, bool) {
    draw_byte_cols(grid, x, y, byte, 8)
}

/// A whole sprite applied row by row below `(x, y)`, wrapping; the collision
/// flag is the disjunction over the rows.
pub open spec fn spec_draw_sprite(grid: Seq<bool>, x: int, y: int, rows: Seq<u8>) -> (Seq<
    bool,
>, bool)
    decreases rows.len(),
{
    if rows.len() == 0 {
        (grid, false)
    } else {
        let (g, c) = spec_draw_sprite(grid, x, y, rows.drop_last());
        let (g2, c2) = spec_draw_byte(g, x, y + rows.len() - 1, rows.last());
        (g2, c || c2)
    }
}

impl Display {
    /// Well-formedness: exactly one bit for each of the 64 x 32 pixels.
    pub open spec fn wf(&self) -> bool {
        self@.len() == SCREEN_WIDTH * SCREEN_HEIGHT
    }

    /// Builds the display with every pixel off.
    pub fn new() -> (d: Display)
        ensures
            d.wf(),
            d@ == Seq::new((SCREEN_WIDTH * SCREEN_HEIGHT) as nat, |i: int| false),
    {
        let mut pixels: Vec<bool> = Vec::new();
        let mut i: usize = 0;
        while i < 2048
            invariant
                i <= 2048,
                pixels@.len() == i,
                forall|j: int| 0 <= j < i ==> pixels@[j] == false,
            decreases 2048 - i,
        {
            pixels.push(false);
            i = i + 1;
        }
        proof {
            assert_seqs_equal!(
                pixels@ == Seq::new((SCREEN_WIDTH * SCREEN_HEIGHT) as nat, |i: int| false)
            );
        }
        Display { pixels }
    }

    /// Turns every pixel off.
    pub fn clear(&mut self)
        requires
            old(self).wf(),
        ensures
            final(self).wf(),
            final(self)@ == Seq::new((SCREEN_WIDTH * SCREEN_HEIGHT) as nat, |i: int| false),
    {
        let mut i: usize = 0;
        while i < 2048
            invariant
                i <= 2048,
                self@.len() == SCREEN_WIDTH * SCREEN_HEIGHT,
                forall|j: int| 0 <= j < i ==> self@[j] == false,
            decreases 2048 - i,
        {
            self.pixels.set(i, false);
            i = i + 1;
        }
        proof {
            assert_seqs_equal!(
                self@ == Seq::new((SCREEN_WIDTH * SCREEN_HEIGHT) as nat, |i: int| false)
            );
        }
    }

    /// Reads one pixel.
    pub fn pixel(&self, x: usize, y: usize) -> (r: bool)
        requires
            self.wf(),
            x < SCREEN_WIDTH,
            y < SCREEN_HEIGHT,
        ensures
            r == self@[y * 64 + x],
    {
        self.pixels[y * 64 + x]
    }
}

/// XORs one 8-pixel sprite row onto the display at `(x, y)`, wrapping around
/// both screen edges, and reports whether any previously lit pixel was
/// turned off.
pub fn draw_byte(display: &mut Display, x: usize, y: usize, byte: u8) -> (vf: bool)
    requires
        old(display).wf(),
    ensures
        final(display).wf(),
        final(display)@ == spec_draw_byte(old(display)@, x as int, y as int, byte).0,
        vf == spec_draw_byte(old(display)@, x as int, y as int, byte).1,
{
    let xm = x % 64;
    let ym = y % 32;
    let mut vf = false;
    let mut j: usize = 0;
    while j < 8
        invariant
            j <= 8,
            xm == x % 64,
            ym == y % 32,
            display@.len() == SCREEN_WIDTH * SCREEN_HEIGHT,
            display@ == draw_byte_cols(old(display)@, x as int, y as int, byte, j as int).0,
            vf == draw_byte_cols(old(display)@, x as int, y as int, byte, j as int).1,
        decreases 8 - j,
    {
        let sh = (7 - j) as u32;
        let bit = (byte >> sh) & 1 == 1;
        proof {
            assert(bit == bit_of(byte, j as int)) by {
                assert((byte >> ((7 - j as int) as u8)) == (byte >> ((7 - j) as u32))) by (bit_vector)
                    requires
                        j < 8,
                ;
            }
        }
        if bit {
            let idx = ym * 64 + (xm + j) % 64;
            proof {
                vstd::arithmetic::div_mod::lemma_add_mod_noop(x as int, j as int, 64);
                vstd::arithmetic::div_mod::lemma_small_mod(j as nat, 64);
                assert(idx == pixel_index(x as int, y as int, j as int));
            }
            let lit = get_pixel(display, idx);
            if lit {
                vf = true;
            }
            set_pixel(display, idx, !lit);
        }
        j = j + 1;
    }
    vf
}

/// Reads the pixel at a row-major index.
fn get_pixel(display: &Display, idx: usize) -> (r: bool)
    requires
        display.wf(),
        idx < SCREEN_WIDTH * SCREEN_HEIGHT,
    ensures
        r == display@[idx as int],
{
    display.pixels[idx]
}

/// Writes the pixel at a row-major index.
fn set_pixel(display: &mut Display, idx: usize, value: bool)
    requires
        old(display).wf(),
        idx < SCREEN_WIDTH * SCREEN_HEIGHT,
    ensures
        final(display).wf(),
        final(display)@ == old(display)@.update(idx as int, value),
{
    display.pixels.set(idx, value);
}

/// Draws a whole sprite, one 8-pixel row per byte, each row one pixel lower,
/// wrapping around both screen edges; reports whether any previously lit
/// pixel was turned off.
pub fn draw_sprite(display: &mut Display, x: usize, y: usize, rows: &[u8]) -> (vf: bool)
    requires
        old(display).wf(),
        y + rows@.len() <= usize::MAX,
    ensures
        final(display).wf(),
        final(display)@ == spec_draw_sprite(old(display)@, x as int, y as int, rows@).0,
        vf == spec_draw_sprite(old(display)@, x as int, y as int, rows@).1,
{
    let mut vf = false;
    let mut i: usize = 0;
    let n = rows.len();
    while i < n
        invariant
            i <= n,
            n == rows@.len(),
            y + n <= usize::MAX,
            display.wf(),
            display@ == spec_draw_sprite(
                old(display)@,
                x as int,
                y as int,
                rows@.subrange(0, i as int),
            ).0,
            vf == spec_draw_sprite(old(display)@, x as int, y as int, rows@.subrange(0, i as int)).1,
        decreases n - i,
    {
        let row = *vstd::slice::slice_index_get(rows, i);
        let collided = draw_byte(display, x, y + i, row);
        if collided {
            vf = true;
        }
        proof {
            let sub1 = rows@.subrange(0, i + 1);
            assert(sub1.drop_last() == rows@.subrange(0, i as int));
            assert(sub1.last() == rows@[i as int]);
        }
        i = i + 1;
    }
    proof {
        assert(rows@.subrange(0, n as int) == rows@);
    }
    vf
}

} // verus!
