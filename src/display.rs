use vstd::prelude::*;
use crate::memory::{Memory, MEMORY_SIZE};

verus! {

/// Columns of the pixel grid.
pub const WIDTH: usize = 64;

/// Rows of the pixel grid.
pub const HEIGHT: usize = 32;

/// Pixels in the grid, stored row by row.
pub const PIXELS: usize = 2048;

/// What a display holds: one 0/1 value per pixel, row-major, and whether it
/// has changed since it was last presented.
pub struct DisplayView {
    pub pixels: Seq<u8>,
    pub dirty: bool,
}

/// A full grid of pixels, each 0 or 1.
pub open spec fn valid_pixels(pixels: Seq<u8>) -> bool {
    &&& pixels.len() == PIXELS
    &&& forall|p: int| 0 <= p < PIXELS ==> #[trigger] pixels[p] <= 1
}

/// The sprite bit that lands on row `r`, column `c` when `rows` bytes from
/// `index` on are drawn with their top-left corner at (`x0`, `y0`): the most
/// significant bit of each byte is its leftmost pixel. Outside the sprite it
/// is 0; a sprite is clipped at the grid's edges, never wrapped.
pub open spec fn sprite_bit(mem: Seq<u8>, index: int, x0: int, y0: int, rows: int, r: int, c: int) -> u8 {
    if y0 <= r < y0 + rows && x0 <= c < x0 + 8 {
        (mem[index + (r - y0)] >> ((7 - (c - x0)) as u8)) & 1u8
    } else {
        0
    }
}

/// A pixel after a sprite bit is XORed onto it.
pub open spec fn xor_pixel(old: u8, bit: u8) -> u8 {
    if bit == 1 {
        if old == 0 { 1 } else { 0 }
    } else {
        old
    }
}

/// The sprite bit that lands on pixel `p`.
pub open spec fn bit_at(mem: Seq<u8>, index: int, x0: int, y0: int, rows: int, p: int) -> u8 {
    sprite_bit(mem, index, x0, y0, rows, p / WIDTH as int, p % WIDTH as int)
}

/// The grid after the sprite is XORed onto it.
pub open spec fn drawn(pixels: Seq<u8>, mem: Seq<u8>, index: int, x0: int, y0: int, rows: int) -> Seq<u8> {
    Seq::new(pixels.len(), |p: int| xor_pixel(pixels[p], bit_at(mem, index, x0, y0, rows, p)))
}

/// Whether drawing the sprite turns pixel `p` from set to unset.
pub open spec fn erases(pixels: Seq<u8>, mem: Seq<u8>, index: int, x0: int, y0: int, rows: int, p: int) -> bool {
    pixels[p] == 1 && bit_at(mem, index, x0, y0, rows, p) == 1
}

/// Whether drawing the sprite unsets any pixel that was set.
pub open spec fn collides(pixels: Seq<u8>, mem: Seq<u8>, index: int, x0: int, y0: int, rows: int) -> bool {
    exists|p: int| 0 <= p < PIXELS && #[trigger] erases(pixels, mem, index, x0, y0, rows, p)
}

/// How many of `rows` sprite rows starting at grid row `y0` fall inside the grid.
pub open spec fn visible_rows(y0: int, rows: int) -> int {
    if rows <= HEIGHT - y0 { rows } else { HEIGHT - y0 }
}

/// Whether pixel `p` comes before row `r`, column `c` in row-major order.
pub open spec fn before(p: int, r: int, c: int) -> bool {
    (p / WIDTH as int) < r || (p / WIDTH as int == r && (p % WIDTH as int) < c)
}

proof fn lemma_cell(r: int, c: int)
    requires
        0 <= c < WIDTH,
    ensures
        (r * WIDTH + c) / WIDTH as int == r,
        (r * WIDTH + c) % WIDTH as int == c,
{
    vstd::arithmetic::div_mod::lemma_fundamental_div_mod_converse(r * WIDTH + c, WIDTH as int, r, c);
}

/// A monochrome 64x32 framebuffer with a flag for changes not yet presented.
pub struct Display {
    buffer: [u8; 2048],
    dirty: bool,
}

impl View for Display {
    type V = DisplayView;

    closed spec fn view(&self) -> DisplayView {
        DisplayView { pixels: self.buffer@, dirty: self.dirty }
    }
}

impl Display {
    /// A blank grid with nothing to present.
    pub fn new() -> (r: Self)
        ensures
            r@.pixels == Seq::new(PIXELS as nat, |p: int| 0u8),
            !r@.dirty,
    {
        let d = Self { buffer: [0u8; 2048], dirty: false };
        assert(d@.pixels =~= Seq::new(PIXELS as nat, |p: int| 0u8));
        d
    }

    /// Unsets every pixel and marks the grid as changed, so that the blank
    /// grid is presented.
    pub fn clear(&mut self)
        ensures
            final(self)@.pixels == Seq::new(PIXELS as nat, |p: int| 0u8),
            final(self)@.dirty,
    {
        self.buffer = [0u8; 2048];
        self.dirty = true;
        assert(self@.pixels =~= Seq::new(PIXELS as nat, |p: int| 0u8));
    }

    pub fn is_dirty(&self) -> (r: bool)
        ensures
            r == self@.dirty,
    {
        self.dirty
    }

    /// Records that the grid has been presented.
    pub fn mark_presented(&mut self)
        ensures
            final(self)@ == (DisplayView { pixels: old(self)@.pixels, dirty: false }),
    {
        self.dirty = false;
    }

    /// The pixel at `row`, `col`: 0 or 1.
    pub fn pixel(&self, row: usize, col: usize) -> (r: u8)
        requires
            row < HEIGHT,
            col < WIDTH,
        ensures
            r == self@.pixels[row * WIDTH + col],
    {
        self.buffer[row * WIDTH + col]
    }

    /// XORs the `num_rows`-byte sprite at `index_register` onto the grid with
    /// its top-left corner at (`x` mod 64, `y` mod 32), clipping what falls
    /// past the right or bottom edge, and marks the grid as changed. Returns 1
    /// if a set pixel was unset, else 0.
    pub fn xor_sprite(&mut self, x: u8, y: u8, num_rows: u8, memory: &Memory, index_register: usize) -> (vf: u8)
        requires
            valid_pixels(old(self)@.pixels),
            memory@.len() == MEMORY_SIZE,
            index_register + visible_rows(y as int % HEIGHT as int, num_rows as int) <= MEMORY_SIZE,
        ensures
            final(self)@.pixels == drawn(
                old(self)@.pixels,
                memory@,
                index_register as int,
                x as int % WIDTH as int,
                y as int % HEIGHT as int,
                num_rows as int,
            ),
            final(self)@.dirty,
            vf == if collides(
                old(self)@.pixels,
                memory@,
                index_register as int,
                x as int % WIDTH as int,
                y as int % HEIGHT as int,
                num_rows as int,
            ) {
                1u8
            } else {
                0u8
            },
    {
        let xr: usize = x as usize % WIDTH;
        let yr: usize = y as usize % HEIGHT;
        let rows: usize = if (num_rows as usize) <= HEIGHT - yr { num_rows as usize } else { HEIGHT - yr };
        let cols: usize = if 8 <= WIDTH - xr { 8 } else { WIDTH - xr };
        let ghost old_pixels = self@.pixels;
        let ghost mem = memory@;
        let ghost index = index_register as int;
        let ghost n = num_rows as int;
        let mut vf: u8 = 0;
        let mut row: usize = 0;
        while row < rows
            invariant
                xr == x as int % WIDTH as int,
                yr == y as int % HEIGHT as int,
                rows == visible_rows(yr as int, n),
                cols <= 8,
                xr + cols == if xr + 8 <= WIDTH { xr + 8 } else { WIDTH as int },
                index_register + rows <= MEMORY_SIZE,
                mem == memory@,
                index == index_register as int,
                n == num_rows as int,
                old_pixels == old(self)@.pixels,
                mem.len() == MEMORY_SIZE,
                valid_pixels(old_pixels),
                row <= rows,
                self@.pixels.len() == PIXELS,
                forall|p: int|
                    0 <= p < PIXELS ==> #[trigger] self@.pixels[p] == if before(p, yr + row, 0) {
                        xor_pixel(old_pixels[p], bit_at(mem, index, xr as int, yr as int, n, p))
                    } else {
                        old_pixels[p]
                    },
                vf == if exists|p: int|
                    0 <= p < PIXELS && before(p, yr + row, 0) && #[trigger] erases(
                        old_pixels,
                        mem,
                        index,
                        xr as int,
                        yr as int,
                        n,
                        p,
                    ) {
                    1u8
                } else {
                    0u8
                },
            decreases rows - row,
        {
            let sprite = memory.read_u8(index_register + row);
            let y_pos = yr + row;
            let mut col: usize = 0;
            while col < cols
                invariant
                    xr == x as int % WIDTH as int,
                    yr == y as int % HEIGHT as int,
                    rows == visible_rows(yr as int, n),
                    cols <= 8,
                    xr + cols == if xr + 8 <= WIDTH { xr + 8 } else { WIDTH as int },
                    index_register + rows <= MEMORY_SIZE,
                    mem == memory@,
                    index == index_register as int,
                    n == num_rows as int,
                    old_pixels == old(self)@.pixels,
                    mem.len() == MEMORY_SIZE,
                    valid_pixels(old_pixels),
                    row < rows,
                    y_pos == yr + row,
                    y_pos < HEIGHT,
                    sprite == mem[index + row],
                    col <= cols,
                    self@.pixels.len() == PIXELS,
                    forall|p: int|
                        0 <= p < PIXELS ==> #[trigger] self@.pixels[p] == if before(p, y_pos as int, xr + col) {
                            xor_pixel(old_pixels[p], bit_at(mem, index, xr as int, yr as int, n, p))
                        } else {
                            old_pixels[p]
                        },
                    vf == if exists|p: int|
                        0 <= p < PIXELS && before(p, y_pos as int, xr + col) && #[trigger] erases(
                            old_pixels,
                            mem,
                            index,
                            xr as int,
                            yr as int,
                            n,
                            p,
                        ) {
                        1u8
                    } else {
                        0u8
                    },
                decreases cols - col,
            {
                let pixel_idx: usize = y_pos * WIDTH + xr + col;
                proof {
                    lemma_cell(y_pos as int, (xr + col) as int);
                }
                let sprite_bit = (sprite >> ((7 - col) as u8)) & 1;
                assert(sprite_bit == bit_at(mem, index, xr as int, yr as int, n, pixel_idx as int));
                if sprite_bit == 1 {
                    if self.buffer[pixel_idx] == 1 {
                        self.buffer[pixel_idx] = 0;
                        assert(erases(old_pixels, mem, index, xr as int, yr as int, n, pixel_idx as int));
                        vf = 1;
                    } else {
                        self.buffer[pixel_idx] = 1;
                    }
                }
                col += 1;
            }
            row += 1;
        }
        self.dirty = true;
        assert(self@.pixels =~= drawn(old_pixels, mem, index, xr as int, yr as int, n));
        vf
    }
}

} // verus!
