//! The display buffer: 64 columns by 32 rows of one-bit pixels, row-major.
//!
//! Sprites are drawn by exclusive or and wrap around both edges. A sprite is
//! a run of bytes, one per row, whose most significant bit is the leftmost
//! pixel.

use vstd::prelude::*;

verus! {

/// Columns of the display.
pub const WIDTH: usize = 64;

/// Rows of the display.
pub const HEIGHT: usize = 32;

/// Pixels of the display: `WIDTH * HEIGHT`.
pub const PIXELS: usize = 2048;

/// The display with every pixel off.
pub open spec fn blank() -> Seq<bool> {
    Seq::new(PIXELS as nat, |p: int| false)
}

/// Whether pixel `col` of a sprite row is set, column 0 being the most
/// significant bit of the byte.
pub open spec fn sprite_bit(row: u8, col: int) -> bool {
    row & (0x80u8 >> col) != 0
}

/// The column of pixel `p` counted from column `x`, wrapping at the right
/// edge: a value in `0..64`.
pub open spec fn column_from(p: int, x: int) -> int {
    (p % 64 - x) % 64
}

/// The row of pixel `p` counted from row `y`, wrapping at the bottom edge: a
/// value in `0..32`.
pub open spec fn row_from(p: int, y: int) -> int {
    (p / 64 - y) % 32
}

/// Whether `sprite`, drawn with its top left corner at column `x`, row `y`,
/// has a set bit on pixel `p`.
pub open spec fn sprite_covers(sprite: Seq<u8>, x: int, y: int, p: int) -> bool {
    let col = column_from(p, x);
    let row = row_from(p, y);
    col < 8 && row < sprite.len() && sprite_bit(sprite[row], col)
}

/// The display after `sprite`, of at most `HEIGHT` rows, was drawn at column
/// `x`, row `y`: each pixel under a set bit of the sprite is flipped, every
/// other pixel is kept.
pub open spec fn draw_spec(pixels: Seq<bool>, sprite: Seq<u8>, x: int, y: int) -> Seq<bool> {
    Seq::new(pixels.len(), |p: int| pixels[p] != sprite_covers(sprite, x, y, p))
}

/// Whether drawing `sprite` at column `x`, row `y` switches a lit pixel off.
pub open spec fn collides(pixels: Seq<bool>, sprite: Seq<u8>, x: int, y: int) -> bool {
    exists|p: int| 0 <= p < pixels.len() && #[trigger] pixels[p] && sprite_covers(sprite, x, y, p)
}

/// The pixel that bit `col` of row `row` of a sprite at (`x`, `y`) lands
/// on: both coordinates wrap.
pub open spec fn target_pixel(x: int, y: int, row: int, col: int) -> int {
    ((y + row) % 32) * 64 + (x + col) % 64
}

/// The part of [`sprite_covers`] that is done once the rows above `row` and,
/// in row `row`, the columns left of `col` have been drawn.
spec fn covered_so_far(sprite: Seq<u8>, x: int, y: int, p: int, row: int, col: int) -> bool {
    sprite_covers(sprite, x, y, p) && (row_from(p, y) < row || (row_from(p, y) == row
        && column_from(p, x) < col))
}

/// The display once the rows above `row` and, in row `row`, the columns
/// left of `col` have been drawn.
spec fn drawn_so_far(pixels: Seq<bool>, sprite: Seq<u8>, x: int, y: int, row: int, col: int) -> Seq<
    bool,
> {
    Seq::new(pixels.len(), |p: int| pixels[p] != covered_so_far(sprite, x, y, p, row, col))
}

/// Whether a lit pixel was switched off by the part of the drawing that is
/// done at (`row`, `col`).
spec fn collided_so_far(
    pixels: Seq<bool>,
    sprite: Seq<u8>,
    x: int,
    y: int,
    row: int,
    col: int,
) -> bool {
    exists|p: int|
        0 <= p < pixels.len() && #[trigger] pixels[p] && covered_so_far(sprite, x, y, p, row, col)
}

/// Bit `col` of row `row` of a sprite at (`x`, `y`) lands on exactly one
/// pixel, [`target_pixel`].
proof fn lemma_target(x: int, y: int, row: int, col: int, p: int)
    requires
        0 <= x < 256,
        0 <= y < 256,
        0 <= row < 32,
        0 <= col < 8,
        0 <= p < 2048,
    ensures
        0 <= target_pixel(x, y, row, col) < 2048,
        (column_from(p, x) == col && row_from(p, y) == row) <==> p == target_pixel(x, y, row, col),
{
}

/// Before the first bit, nothing is drawn.
proof fn lemma_draw_start(pixels: Seq<bool>, sprite: Seq<u8>, x: int, y: int)
    ensures
        drawn_so_far(pixels, sprite, x, y, 0, 0) == pixels,
        !collided_so_far(pixels, sprite, x, y, 0, 0),
{
    assert(drawn_so_far(pixels, sprite, x, y, 0, 0) =~= pixels);
}

/// One bit: if it is set, its pixel is flipped, and a collision is noted if
/// that pixel was lit; if it is clear, nothing changes.
proof fn lemma_draw_bit(pixels: Seq<bool>, sprite: Seq<u8>, x: int, y: int, row: int, col: int)
    requires
        pixels.len() == PIXELS,
        0 <= x < 256,
        0 <= y < 256,
        0 <= row < sprite.len() <= 32,
        0 <= col < 8,
    ensures
        ({
            let target = target_pixel(x, y, row, col);
            let lit = sprite_bit(sprite[row], col);
            let now = drawn_so_far(pixels, sprite, x, y, row, col);
            let next = drawn_so_far(pixels, sprite, x, y, row, col + 1);
            &&& now[target] == pixels[target]
            &&& lit ==> next == now.update(target, !now[target])
            &&& !lit ==> next == now
            &&& collided_so_far(pixels, sprite, x, y, row, col + 1) == (collided_so_far(
                pixels,
                sprite,
                x,
                y,
                row,
                col,
            ) || (lit && pixels[target]))
        }),
{
    let target = target_pixel(x, y, row, col);
    let lit = sprite_bit(sprite[row], col);
    let now = drawn_so_far(pixels, sprite, x, y, row, col);
    let next = drawn_so_far(pixels, sprite, x, y, row, col + 1);
    lemma_target(x, y, row, col, target);
    assert forall|p: int| 0 <= p < PIXELS implies covered_so_far(sprite, x, y, p, row, col + 1) == (
    covered_so_far(sprite, x, y, p, row, col) || (lit && p == target)) by {
        lemma_target(x, y, row, col, p);
    }
    if lit {
        assert(next =~= now.update(target, !now[target]));
    } else {
        assert(next =~= now);
    }
    if collided_so_far(pixels, sprite, x, y, row, col) {
        let p = choose|p: int|
            0 <= p < pixels.len() && #[trigger] pixels[p] && covered_so_far(
                sprite,
                x,
                y,
                p,
                row,
                col,
            );
        assert(pixels[p] && covered_so_far(sprite, x, y, p, row, col + 1));
    }
    if lit && pixels[target] {
        assert(pixels[target] && covered_so_far(sprite, x, y, target, row, col + 1));
    }
}

/// After the eighth bit of a row comes the first bit of the next row.
proof fn lemma_draw_row_done(pixels: Seq<bool>, sprite: Seq<u8>, x: int, y: int, row: int)
    ensures
        drawn_so_far(pixels, sprite, x, y, row, 8) == drawn_so_far(
            pixels,
            sprite,
            x,
            y,
            row + 1,
            0,
        ),
        collided_so_far(pixels, sprite, x, y, row, 8) == collided_so_far(
            pixels,
            sprite,
            x,
            y,
            row + 1,
            0,
        ),
{
    assert forall|p: int| covered_so_far(sprite, x, y, p, row, 8) == covered_so_far(
        sprite,
        x,
        y,
        p,
        row + 1,
        0,
    ) by {}
    assert(drawn_so_far(pixels, sprite, x, y, row, 8) =~= drawn_so_far(
        pixels,
        sprite,
        x,
        y,
        row + 1,
        0,
    ));
    if collided_so_far(pixels, sprite, x, y, row, 8) {
        let p = choose|p: int|
            0 <= p < pixels.len() && #[trigger] pixels[p] && covered_so_far(
                sprite,
                x,
                y,
                p,
                row,
                8,
            );
        assert(pixels[p] && covered_so_far(sprite, x, y, p, row + 1, 0));
    }
    if collided_so_far(pixels, sprite, x, y, row + 1, 0) {
        let p = choose|p: int|
            0 <= p < pixels.len() && #[trigger] pixels[p] && covered_so_far(
                sprite,
                x,
                y,
                p,
                row + 1,
                0,
            );
        assert(pixels[p] && covered_so_far(sprite, x, y, p, row, 8));
    }
}

/// After the last row, the whole sprite is drawn.
proof fn lemma_draw_done(pixels: Seq<bool>, sprite: Seq<u8>, x: int, y: int)
    ensures
        drawn_so_far(pixels, sprite, x, y, sprite.len() as int, 0) == draw_spec(
            pixels,
            sprite,
            x,
            y,
        ),
        collided_so_far(pixels, sprite, x, y, sprite.len() as int, 0) == collides(
            pixels,
            sprite,
            x,
            y,
        ),
{
    let rows = sprite.len() as int;
    assert forall|p: int| covered_so_far(sprite, x, y, p, rows, 0) == sprite_covers(
        sprite,
        x,
        y,
        p,
    ) by {}
    assert(drawn_so_far(pixels, sprite, x, y, rows, 0) =~= draw_spec(pixels, sprite, x, y));
    if collided_so_far(pixels, sprite, x, y, rows, 0) {
        let p = choose|p: int|
            0 <= p < pixels.len() && #[trigger] pixels[p] && covered_so_far(
                sprite,
                x,
                y,
                p,
                rows,
                0,
            );
        assert(pixels[p] && sprite_covers(sprite, x, y, p));
    }
    if collides(pixels, sprite, x, y) {
        let p = choose|p: int|
            0 <= p < pixels.len() && #[trigger] pixels[p] && sprite_covers(sprite, x, y, p);
        assert(pixels[p] && covered_so_far(sprite, x, y, p, rows, 0));
    }
}

/// The bits of a sprite row are its binary digits, the most significant one
/// being pixel 0.
pub proof fn lemma_sprite_bits_are_binary_digits(row: u8)
    ensures
        sprite_bit(row, 0) == (row / 128 % 2 == 1),
        sprite_bit(row, 1) == (row / 64 % 2 == 1),
        sprite_bit(row, 2) == (row / 32 % 2 == 1),
        sprite_bit(row, 3) == (row / 16 % 2 == 1),
        sprite_bit(row, 4) == (row / 8 % 2 == 1),
        sprite_bit(row, 5) == (row / 4 % 2 == 1),
        sprite_bit(row, 6) == (row / 2 % 2 == 1),
        sprite_bit(row, 7) == (row % 2 == 1),
{
    assert((row & (0x80u8 >> 0) != 0) == (row / 128 % 2 == 1)) by (bit_vector);
    assert((row & (0x80u8 >> 1) != 0) == (row / 64 % 2 == 1)) by (bit_vector);
    assert((row & (0x80u8 >> 2) != 0) == (row / 32 % 2 == 1)) by (bit_vector);
    assert((row & (0x80u8 >> 3) != 0) == (row / 16 % 2 == 1)) by (bit_vector);
    assert((row & (0x80u8 >> 4) != 0) == (row / 8 % 2 == 1)) by (bit_vector);
    assert((row & (0x80u8 >> 5) != 0) == (row / 4 % 2 == 1)) by (bit_vector);
    assert((row & (0x80u8 >> 6) != 0) == (row / 2 % 2 == 1)) by (bit_vector);
    assert((row & (0x80u8 >> 7) != 0) == (row % 2 == 1)) by (bit_vector);
}

/// Bit `col` of row `row` of a sprite drawn at (`x`, `y`) decides about the
/// pixel in column `(x + col) mod 64`, row `(y + row) mod 32`, and about no
/// other: that pixel is under the sprite exactly if the bit is set, and every
/// pixel under the sprite is the pixel of one of its bits.
pub proof fn lemma_pixel_of_bit(sprite: Seq<u8>, x: int, y: int, row: int, col: int, p: int)
    requires
        sprite.len() <= HEIGHT,
        0 <= x < 256,
        0 <= y < 256,
        0 <= row < sprite.len(),
        0 <= col < 8,
        0 <= p < PIXELS,
    ensures
        target_pixel(x, y, row, col) % 64 == (x + col) % 64,
        target_pixel(x, y, row, col) / 64 == (y + row) % 32,
        sprite_covers(sprite, x, y, target_pixel(x, y, row, col)) == sprite_bit(sprite[row], col),
        sprite_covers(sprite, x, y, p) ==> p == target_pixel(
            x,
            y,
            row_from(p, y),
            column_from(p, x),
        ),
{
    lemma_target(x, y, row, col, target_pixel(x, y, row, col));
    if sprite_covers(sprite, x, y, p) {
        lemma_target(x, y, row_from(p, y), column_from(p, x), p);
    }
}

/// The display as a frame of colours: `on` for a lit pixel, `off` for an
/// unlit one, in row-major order.
pub open spec fn frame_spec(pixels: Seq<bool>, on: u32, off: u32) -> Seq<u32> {
    Seq::new(
        pixels.len(),
        |p: int|
            if pixels[p] {
                on
            } else {
                off
            },
    )
}

/// Drawing is its own inverse: a sprite drawn twice at the same place leaves
/// the display as it was. The second drawing reports a collision exactly if
/// the sprite has a set bit on a pixel that was off before the first; so it
/// does whenever the first drawing lit a pixel and switched none off.
pub proof fn lemma_draw_twice_restores(pixels: Seq<bool>, sprite: Seq<u8>, x: int, y: int)
    ensures
        draw_spec(draw_spec(pixels, sprite, x, y), sprite, x, y) == pixels,
        collides(draw_spec(pixels, sprite, x, y), sprite, x, y) <==> exists|p: int|
            0 <= p < pixels.len() && !#[trigger] pixels[p] && sprite_covers(sprite, x, y, p),
        !collides(pixels, sprite, x, y) && draw_spec(pixels, sprite, x, y) != pixels ==> collides(
            draw_spec(pixels, sprite, x, y),
            sprite,
            x,
            y,
        ),
{
    let once = draw_spec(pixels, sprite, x, y);
    let twice = draw_spec(once, sprite, x, y);
    assert(twice =~= pixels);
    if collides(once, sprite, x, y) {
        let p = choose|p: int|
            0 <= p < once.len() && #[trigger] once[p] && sprite_covers(sprite, x, y, p);
        assert(!pixels[p] && sprite_covers(sprite, x, y, p));
    }
    if exists|p: int|
        0 <= p < pixels.len() && !#[trigger] pixels[p] && sprite_covers(sprite, x, y, p) {
        let p = choose|p: int|
            0 <= p < pixels.len() && !#[trigger] pixels[p] && sprite_covers(sprite, x, y, p);
        assert(once[p] && sprite_covers(sprite, x, y, p));
    }
    if !collides(pixels, sprite, x, y) && once != pixels {
        assert(!(once =~= pixels));
        let p = choose|p: int| 0 <= p < pixels.len() && once[p] != pixels[p];
        assert(sprite_covers(sprite, x, y, p));
        assert(!pixels[p]) by {
            if pixels[p] {
                assert(collides(pixels, sprite, x, y));
            }
        }
        assert(once[p] && sprite_covers(sprite, x, y, p));
    }
}

/// The display buffer.
#[derive(Debug)]
pub struct Display {
    pixels: Vec<bool>,
}

impl View for Display {
    type V = Seq<bool>;

    /// The pixels in row-major order: pixel (`x`, `y`) is at `y * 64 + x`.
    closed spec fn view(&self) -> Seq<bool> {
        self.pixels@
    }
}

impl Display {
    #[verifier::type_invariant]
    spec fn inv(self) -> bool {
        self.pixels.len() == PIXELS
    }

    /// A display with every pixel off.
    pub fn new() -> (display: Display)
        ensures
            display@ == blank(),
    {
        let display = Display { pixels: vec![false; PIXELS] };
        assert(display.pixels@ =~= blank());
        display
    }

    /// Switches every pixel off.
    pub fn clear(&mut self)
        ensures
            final(self)@ == blank(),
        no_unwind
    {
        proof {
            use_type_invariant(&*self);
        }
        let mut p: usize = 0;
        while p < PIXELS
            invariant
                p <= PIXELS,
                self.pixels.len() == PIXELS,
                forall|q: int| 0 <= q < p ==> !#[trigger] self.pixels@[q],
            decreases PIXELS - p,
        {
            self.pixels[p] = false;
            p = p + 1;
        }
        assert(self.pixels@ =~= blank());
    }

    /// The state of the pixel in column `x`, row `y`, or `None` outside the
    /// display.
    pub fn pixel(&self, x: usize, y: usize) -> (on: Option<bool>)
        ensures
            self@.len() == PIXELS,
            x < WIDTH && y < HEIGHT ==> on == Some(self@[y * 64 + x]),
            !(x < WIDTH && y < HEIGHT) ==> on.is_none(),
    {
        proof {
            use_type_invariant(self);
        }
        if x < WIDTH && y < HEIGHT {
            Some(self.pixels[y * WIDTH + x])
        } else {
            None
        }
    }

    /// The display as a frame of colours for presentation: `on` for each lit
    /// pixel, `off` for each unlit one, in row-major order.
    pub fn frame(&self, on: u32, off: u32) -> (frame: Vec<u32>)
        ensures
            frame@ == frame_spec(self@, on, off),
            frame@.len() == PIXELS,
    {
        proof {
            use_type_invariant(self);
        }
        let mut frame: Vec<u32> = Vec::with_capacity(PIXELS);
        let mut p: usize = 0;
        while p < PIXELS
            invariant
                p <= PIXELS,
                self.pixels.len() == PIXELS,
                frame@.len() == p,
                forall|q: int|
                    0 <= q < p ==> #[trigger] frame@[q] == (if self.pixels@[q] {
                        on
                    } else {
                        off
                    }),
            decreases PIXELS - p,
        {
            let colour: u32 = if self.pixels[p] {
                on
            } else {
                off
            };
            frame.push(colour);
            p = p + 1;
        }
        assert(frame@ =~= frame_spec(self.pixels@, on, off));
        frame
    }

    /// Draws `sprite`, one byte per row, with its top left corner at column
    /// `x`, row `y`, and reports whether a lit pixel was switched off.
    ///
    /// Both coordinates wrap: a sprite that runs over the right or the bottom
    /// edge continues at the opposite edge. A sprite has at most `HEIGHT`
    /// rows, so that no two of its rows meet.
    pub fn draw(&mut self, x: u8, y: u8, sprite: &[u8]) -> (hit: bool)
        requires
            sprite@.len() <= HEIGHT,
        ensures
            final(self)@ == draw_spec(old(self)@, sprite@, x as int, y as int),
            hit == collides(old(self)@, sprite@, x as int, y as int),
            final(self)@.len() == PIXELS,
    {
        let rows: usize = sprite.len();
        self.draw_rows(x, y, sprite, rows)
    }

    /// [`Display::draw`] for a caller that knows the number of rows.
    pub(crate) fn draw_rows(&mut self, x: u8, y: u8, sprite: &[u8], rows: usize) -> (hit: bool)
        requires
            rows == sprite@.len(),
            rows <= HEIGHT,
        ensures
            final(self)@ == draw_spec(old(self)@, sprite@, x as int, y as int),
            hit == collides(old(self)@, sprite@, x as int, y as int),
            final(self)@.len() == PIXELS,
        no_unwind
    {
        proof {
            use_type_invariant(&*self);
        }
        let ghost before = self.pixels@;
        proof {
            lemma_draw_start(before, sprite@, x as int, y as int);
        }
        let mut hit = false;
        let mut row: usize = 0;
        while row < rows
            invariant
                row <= rows <= HEIGHT,
                rows == sprite@.len(),
                before.len() == PIXELS,
                self.pixels@ == drawn_so_far(before, sprite@, x as int, y as int, row as int, 0),
                hit == collided_so_far(before, sprite@, x as int, y as int, row as int, 0),
            decreases rows - row,
        {
            let bits: u8 = sprite[row];
            let mut col: u8 = 0;
            while col < 8
                invariant
                    col <= 8,
                    row < rows <= HEIGHT,
                    rows == sprite@.len(),
                    bits == sprite@[row as int],
                    before.len() == PIXELS,
                    self.pixels@ == drawn_so_far(
                        before,
                        sprite@,
                        x as int,
                        y as int,
                        row as int,
                        col as int,
                    ),
                    hit == collided_so_far(
                        before,
                        sprite@,
                        x as int,
                        y as int,
                        row as int,
                        col as int,
                    ),
                decreases 8 - col,
            {
                proof {
                    lemma_draw_bit(before, sprite@, x as int, y as int, row as int, col as int);
                }
                let target: usize = ((y as usize + row) % HEIGHT) * WIDTH + (x as usize
                    + col as usize) % WIDTH;
                if bits & (0x80u8 >> col) != 0 {
                    if self.pixels[target] {
                        hit = true;
                    }
                    let flipped: bool = !self.pixels[target];
                    self.pixels[target] = flipped;
                }
                col = col + 1;
            }
            proof {
                lemma_draw_row_done(before, sprite@, x as int, y as int, row as int);
            }
            row = row + 1;
        }
        proof {
            lemma_draw_done(before, sprite@, x as int, y as int);
        }
        hit
    }
}

} // verus!
