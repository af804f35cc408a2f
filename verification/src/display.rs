//! The monochrome framebuffer and sprite compositing.

use vstd::prelude::*;

verus! {

/// Pixels in one row of the display.
pub const SCREEN_WIDTH: usize = 64;

/// Rows of the display.
pub const SCREEN_HEIGHT: usize = 32;

/// Colour handed to a presentation layer for a pixel that is on.
pub const PIXEL_ON: u32 = 0x0;

/// Colour handed to a presentation layer for a pixel that is off.
pub const PIXEL_OFF: u32 = 0xFFFFFFFF;

/// A grid of pixels, indexed by row and then by column.
pub type Pixels = Seq<Seq<bool>>;

/// The grid has the display's height and width.
pub open spec fn is_screen(s: Pixels) -> bool {
    &&& s.len() == SCREEN_HEIGHT
    &&& forall|r: int| 0 <= r < SCREEN_HEIGHT ==> (#[trigger] s[r]).len() == SCREEN_WIDTH
}

/// The grid with every pixel off.
pub open spec fn blank_screen() -> Pixels {
    Seq::new(SCREEN_HEIGHT as nat, |r: int| Seq::new(SCREEN_WIDTH as nat, |c: int| false))
}

/// Bit `k` of a sprite row, counted from the left: bit 0 is the most
/// significant bit of the byte.
pub open spec fn sprite_bit(row: u8, k: int) -> bool {
    (row >> ((7 - k) as u8)) & 1u8 == 1u8
}

/// How far column `c` lies to the right of column `ox`, going round the
/// display's edge.
pub open spec fn offset_from(ox: int, c: int) -> int {
    (c - ox) % (SCREEN_WIDTH as int)
}

/// The grid after one sprite row is composited into display row `y` with its
/// leftmost bit at column `ox`: the eight pixels the row covers are flipped
/// where the row's bit is on.
#[verifier::opaque]
pub open spec fn draw_row(s: Pixels, ox: int, y: int, row: u8) -> Pixels {
    Seq::new(
        SCREEN_HEIGHT as nat,
        |r: int|
            Seq::new(
                SCREEN_WIDTH as nat,
                |c: int|
                    if r == y && offset_from(ox, c) < 8 {
                        s[r][c] ^ sprite_bit(row, offset_from(ox, c))
                    } else {
                        s[r][c]
                    },
            ),
    )
}

/// Bit `k` of the sprite row is on and falls on a pixel that is on.
pub open spec fn bit_collides(s: Pixels, ox: int, y: int, row: u8, k: int) -> bool {
    sprite_bit(row, k) && s[y][(ox + k) % (SCREEN_WIDTH as int)]
}

/// Some bit of the sprite row that is on falls on a pixel that is on.
#[verifier::opaque]
pub open spec fn row_collides(s: Pixels, ox: int, y: int, row: u8) -> bool {
    exists|k: int| 0 <= k < 8 && #[trigger] bit_collides(s, ox, y, row, k)
}

/// The display row that sprite row `j` falls on when the sprite's first row
/// is at `oy`.
pub open spec fn target_row(oy: int, j: int) -> int {
    (oy + j) % (SCREEN_HEIGHT as int)
}

/// The grid after the first `k` rows of a sprite are composited with its
/// top-left corner at column `ox`, row `oy`.
pub open spec fn draw_rows(s: Pixels, ox: int, oy: int, rows: Seq<u8>, k: nat) -> Pixels
    decreases k,
{
    if k == 0 {
        s
    } else {
        let j = (k - 1) as nat;
        draw_row(draw_rows(s, ox, oy, rows, j), ox, target_row(oy, j as int), rows[j as int])
    }
}

/// Some bit among the first `k` rows of the sprite, when its turn came, was
/// on and fell on a pixel that was on.
pub open spec fn rows_collide(s: Pixels, ox: int, oy: int, rows: Seq<u8>, k: nat) -> bool
    decreases k,
{
    if k == 0 {
        false
    } else {
        let j = (k - 1) as nat;
        rows_collide(s, ox, oy, rows, j) || row_collides(
            draw_rows(s, ox, oy, rows, j),
            ox,
            target_row(oy, j as int),
            rows[j as int],
        )
    }
}

/// An on-bit of sprite row `j` falls on the pixel in row `r`, column `c`.
pub open spec fn row_hits(ox: int, oy: int, rows: Seq<u8>, j: int, r: int, c: int) -> bool {
    target_row(oy, j) == r && offset_from(ox, c) < 8 && sprite_bit(rows[j], offset_from(ox, c))
}

/// An odd number of on-bits among the first `k` rows of the sprite fall on
/// the pixel in row `r`, column `c`.
pub open spec fn flips(ox: int, oy: int, rows: Seq<u8>, k: nat, r: int, c: int) -> bool
    decreases k,
{
    if k == 0 {
        false
    } else {
        flips(ox, oy, rows, (k - 1) as nat, r, c) ^ row_hits(ox, oy, rows, k - 1, r, c)
    }
}

/// Only the origin's column modulo the display's width matters to a row.
pub proof fn lemma_origin_wraps(s: Pixels, ox: int, y: int, row: u8)
    ensures
        draw_row(s, ox % (SCREEN_WIDTH as int), y, row) == draw_row(s, ox, y, row),
        row_collides(s, ox % (SCREEN_WIDTH as int), y, row) == row_collides(s, ox, y, row),
{
    reveal(draw_row);
    reveal(row_collides);
    let m = ox % (SCREEN_WIDTH as int);
    assert forall|c: int| offset_from(m, c) == offset_from(ox, c) by {}
    assert(draw_row(s, m, y, row) =~~= draw_row(s, ox, y, row));
    assert forall|k: int| bit_collides(s, m, y, row, k) == bit_collides(s, ox, y, row, k) by {}
}

/// Only the origin's row modulo the display's height matters, and a sprite
/// row's index may be reduced likewise.
pub proof fn lemma_target_row_wraps(oy: int, j: int)
    ensures
        (oy % (SCREEN_HEIGHT as int) + j % (SCREEN_HEIGHT as int)) % (SCREEN_HEIGHT as int)
            == target_row(oy, j),
{
}

/// Compositing `k` rows is compositing one row fewer and then row `k - 1`.
pub proof fn lemma_next_row(s: Pixels, ox: int, oy: int, rows: Seq<u8>, k: nat)
    requires
        k > 0,
    ensures
        draw_rows(s, ox, oy, rows, k) == draw_row(
            draw_rows(s, ox, oy, rows, (k - 1) as nat),
            ox,
            target_row(oy, k - 1),
            rows[k - 1],
        ),
        rows_collide(s, ox, oy, rows, k) == (rows_collide(s, ox, oy, rows, (k - 1) as nat)
            || row_collides(
            draw_rows(s, ox, oy, rows, (k - 1) as nat),
            ox,
            target_row(oy, k - 1),
            rows[k - 1],
        )),
{
}

/// Compositing is exclusive-or, pixel by pixel: after the first `k` rows of
/// a sprite, a pixel differs from what it was exactly if an odd number of
/// on-bits fell on it. The grid keeps its size.
pub proof fn lemma_pixel_after(s: Pixels, ox: int, oy: int, rows: Seq<u8>, k: nat, r: int, c: int)
    requires
        is_screen(s),
        0 <= r < SCREEN_HEIGHT,
        0 <= c < SCREEN_WIDTH,
    ensures
        is_screen(draw_rows(s, ox, oy, rows, k)),
        draw_rows(s, ox, oy, rows, k)[r][c] == s[r][c] ^ flips(ox, oy, rows, k, r, c),
    decreases k,
{
    if k > 0 {
        reveal(draw_row);
        lemma_pixel_after(s, ox, oy, rows, (k - 1) as nat, r, c);
    }
}

/// The 64 by 32 framebuffer.
#[derive(Debug)]
pub struct Display {
    pub screen: [[bool; SCREEN_WIDTH]; SCREEN_HEIGHT],
}

impl View for Display {
    type V = Pixels;

    /// The display is its grid of pixels.
    open spec fn view(&self) -> Pixels {
        Seq::new(SCREEN_HEIGHT as nat, |r: int| self.screen@[r]@)
    }
}

impl Display {
    /// A display with every pixel off.
    pub fn initialise() -> (display: Self)
        ensures
            display@ == blank_screen(),
    {
        let display = Self { screen: [[false; SCREEN_WIDTH]; SCREEN_HEIGHT] };
        assert(display@ =~~= blank_screen());
        display
    }

    /// Turns every pixel off.
    pub fn clear_screen(&mut self)
        ensures
            final(self)@ == blank_screen(),
    {
        self.screen = [[false; SCREEN_WIDTH]; SCREEN_HEIGHT];
        assert(self@ =~~= blank_screen());
    }

    /// The colours of all pixels, row after row, for a presentation layer.
    pub fn get_buffer(&self) -> (buffer: Vec<u32>)
        ensures
            buffer@.len() == SCREEN_WIDTH * SCREEN_HEIGHT,
            forall|r: int, c: int|
                0 <= r < SCREEN_HEIGHT && 0 <= c < SCREEN_WIDTH ==> buffer@[r * SCREEN_WIDTH + c] == (
                if self@[r][c] {
                    PIXEL_ON
                } else {
                    PIXEL_OFF
                }),
    {
        let mut buffer: Vec<u32> = Vec::new();
        let mut r: usize = 0;
        while r < SCREEN_HEIGHT
            invariant
                r <= SCREEN_HEIGHT,
                buffer@.len() == r * SCREEN_WIDTH,
                forall|q: int, c: int|
                    0 <= q < r && 0 <= c < SCREEN_WIDTH ==> buffer@[q * SCREEN_WIDTH + c] == (
                    if self@[q][c] {
                        PIXEL_ON
                    } else {
                        PIXEL_OFF
                    }),
            decreases SCREEN_HEIGHT - r,
        {
            let mut c: usize = 0;
            while c < SCREEN_WIDTH
                invariant
                    r < SCREEN_HEIGHT,
                    c <= SCREEN_WIDTH,
                    buffer@.len() == r * SCREEN_WIDTH + c,
                    forall|q: int, d: int|
                        0 <= q < r && 0 <= d < SCREEN_WIDTH ==> buffer@[q * SCREEN_WIDTH + d] == (
                        if self@[q][d] {
                            PIXEL_ON
                        } else {
                            PIXEL_OFF
                        }),
                    forall|d: int|
                        0 <= d < c ==> buffer@[r * SCREEN_WIDTH + d] == (if self@[r as int][d] {
                            PIXEL_ON
                        } else {
                            PIXEL_OFF
                        }),
                decreases SCREEN_WIDTH - c,
            {
                let colour: u32 = if self.screen[r][c] {
                    PIXEL_ON
                } else {
                    PIXEL_OFF
                };
                buffer.push(colour);
                c += 1;
            }
            r += 1;
        }
        buffer
    }

    /// Composites a sprite, one byte per row and eight pixels wide, with its
    /// top-left corner at column `location.0`, row `location.1`. Each row is
    /// drawn most significant bit first, left to right; both coordinates wrap
    /// round the display's edges. A bit that is on flips the pixel it falls
    /// on. The result says whether any bit that was on fell on a pixel that
    /// was on.
    pub fn display_sprite(&mut self, location: (&usize, &usize), sprite: &[u8]) -> (collided: bool)
        ensures
            final(self)@ == draw_rows(
                old(self)@,
                *location.0 as int,
                *location.1 as int,
                sprite@,
                sprite@.len(),
            ),
            collided == rows_collide(
                old(self)@,
                *location.0 as int,
                *location.1 as int,
                sprite@,
                sprite@.len(),
            ),
            forall|r: int, c: int|
                0 <= r < SCREEN_HEIGHT && 0 <= c < SCREEN_WIDTH ==> #[trigger] final(self)@[r][c] == (
                old(self)@[r][c] ^ flips(
                    *location.0 as int,
                    *location.1 as int,
                    sprite@,
                    sprite@.len(),
                    r,
                    c,
                )),
    {
        let (x, y) = location;
        let ox: usize = *x % SCREEN_WIDTH;
        let oy: usize = *y % SCREEN_HEIGHT;
        let mut did_overwrite = false;
        let mut i: usize = 0;
        while i < sprite.len()
            invariant
                i <= sprite@.len(),
                ox == *x % SCREEN_WIDTH,
                oy == *y % SCREEN_HEIGHT,
                self@ == draw_rows(old(self)@, *x as int, *y as int, sprite@, i as nat),
                did_overwrite == rows_collide(old(self)@, *x as int, *y as int, sprite@, i as nat),
            decreases sprite@.len() - i,
        {
            let cy: usize = (oy + i % SCREEN_HEIGHT) % SCREEN_HEIGHT;
            let ghost before = self@;
            proof {
                lemma_target_row_wraps(*y as int, i as int);
                lemma_origin_wraps(before, *x as int, cy as int, sprite@[i as int]);
            }
            let hit = self.draw_sprite_row(ox, cy, sprite[i]);
            did_overwrite = did_overwrite || hit;
            i += 1;
            proof {
                lemma_next_row(old(self)@, *x as int, *y as int, sprite@, i as nat);
            }
        }
        proof {
            assert forall|r: int, c: int|
                0 <= r < SCREEN_HEIGHT && 0 <= c < SCREEN_WIDTH implies #[trigger] self@[r][c] == (
            old(self)@[r][c] ^ flips(*x as int, *y as int, sprite@, sprite@.len(), r, c)) by {
                lemma_pixel_after(old(self)@, *x as int, *y as int, sprite@, sprite@.len(), r, c);
            }
        }
        did_overwrite
    }

    /// Composites one sprite row into display row `y`, leftmost bit at
    /// column `x`, and says whether a pixel that was on was turned off.
    fn draw_sprite_row(&mut self, x: usize, y: usize, row: u8) -> (collided: bool)
        requires
            x < SCREEN_WIDTH,
            y < SCREEN_HEIGHT,
        ensures
            final(self)@ == draw_row(old(self)@, x as int, y as int, row),
            collided == row_collides(old(self)@, x as int, y as int, row),
    {
        proof {
            reveal(draw_row);
            reveal(row_collides);
        }
        let mut collided = false;
        let mut k: u8 = 0;
        while k < 8
            invariant
                x < SCREEN_WIDTH,
                y < SCREEN_HEIGHT,
                k <= 8,
                forall|r: int, c: int|
                    0 <= r < SCREEN_HEIGHT && 0 <= c < SCREEN_WIDTH ==> #[trigger] self@[r][c] == (
                    if r == y && offset_from(x as int, c) < k {
                        old(self)@[r][c] ^ sprite_bit(row, offset_from(x as int, c))
                    } else {
                        old(self)@[r][c]
                    }),
                collided == (exists|j: int|
                    0 <= j < k && #[trigger] bit_collides(old(self)@, x as int, y as int, row, j)),
            decreases 8 - k,
        {
            let cx: usize = (x + k as usize) % SCREEN_WIDTH;
            let bit: bool = (row >> (7 - k)) & 1 == 1;
            let lit: bool = self.screen[y][cx];
            let ghost before = self@;
            if bit && lit {
                collided = true;
            }
            self.screen[y][cx] = lit ^ bit;
            proof {
                assert(lit == before[y as int][cx as int]);
                assert(bit == sprite_bit(row, k as int));
                assert(offset_from(x as int, cx as int) == k);
                assert forall|r: int, c: int|
                    0 <= r < SCREEN_HEIGHT && 0 <= c < SCREEN_WIDTH implies #[trigger] self@[r][c] == (
                    if r == y && c == cx {
                        lit ^ bit
                    } else {
                        before[r][c]
                    }) by {}
                assert forall|c: int| 0 <= c < SCREEN_WIDTH && c != cx implies offset_from(
                    x as int,
                    c,
                ) != k by {}
                assert(bit_collides(old(self)@, x as int, y as int, row, k as int) == (bit && lit));
            }
            k += 1;
        }
        assert(self@ =~~= draw_row(old(self)@, x as int, y as int, row));
        collided
    }
}

} // verus!
