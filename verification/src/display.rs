//! The framebuffer: a 64x32 monochrome bitmap, eight pixels to a byte, that
//! changes only by XOR-compositing sprites onto it.
//!
//! The mathematical model of a framebuffer is its row-major sequence of
//! 2048 pixels; the packing into bytes is an implementation detail.

use vstd::prelude::*;

verus! {

/// Pixels in a row.
pub const WIDTH: usize = 64;

/// Rows on the screen.
pub const HEIGHT: usize = 32;

/// Pixels on the screen.
pub const PIXELS: usize = 2048;

/// Bytes of the packed bitmap.
pub const DISPLAY_BYTES: usize = 256;

/// Pixels in a sprite row.
pub const SPRITE_WIDTH: usize = 8;

/// The tallest sprite that an instruction can name.
pub const MAX_SPRITE_ROWS: usize = 15;

/// The value that stands for a lit pixel in a presentation buffer.
pub const PIXEL_ON: u32 = 0xFFFF;

/// The value that stands for a dark pixel in a presentation buffer.
pub const PIXEL_OFF: u32 = 0x0000;

/// Whether the pixel in `column` of a packed byte is lit. Column 0 is the
/// leftmost pixel and the most significant bit.
pub open spec fn bit_of(byte: u8, column: int) -> bool {
    (byte >> ((7 - column) as u8)) & 1u8 == 1u8
}

/// The position of pixel `(x, y)` in the row-major pixel sequence.
pub open spec fn pixel_index(x: int, y: int) -> int {
    y * 64 + x
}

/// Whether a sprite with the given rows, drawn with its top-left corner at
/// `(x, y)`, has a lit bit that lands on screen pixel `(px, py)`. Sprite
/// column `c` of row `r` lands on `((x + c) mod 64, (y + r) mod 32)`.
pub open spec fn sprite_covers(x: int, y: int, rows: Seq<u8>, px: int, py: int) -> bool {
    let column = (px - x) % 64;
    let row = (py - y) % 32;
    column < 8 && row < rows.len() && bit_of(rows[row], column)
}

/// The pixel that column `c` of row `r` of a sprite at `(x, y)` lands on:
/// coordinates wrap around both edges of the screen.
pub open spec fn landing_pixel(x: int, y: int, r: int, c: int) -> int {
    pixel_index((x + c) % 64, (y + r) % 32)
}

/// Whether column `c` of row `r` of the sprite is lit and lands on a lit
/// pixel.
pub open spec fn strikes(pixels: Seq<bool>, x: int, y: int, rows: Seq<u8>, r: int, c: int) -> bool {
    0 <= r < rows.len() && 0 <= c < 8 && bit_of(rows[r], c) && pixels[landing_pixel(x, y, r, c)]
}

/// The pixels after a sprite is composited onto `pixels`: every pixel that
/// a lit sprite bit lands on is inverted, every other pixel is kept.
pub open spec fn drawn(pixels: Seq<bool>, x: int, y: int, rows: Seq<u8>) -> Seq<bool> {
    Seq::new(2048, |i: int| pixels[i] ^ sprite_covers(x, y, rows, i % 64, i / 64))
}

/// Whether some lit sprite bit lands on a pixel that is already lit.
pub open spec fn collides(pixels: Seq<bool>, x: int, y: int, rows: Seq<u8>) -> bool {
    exists|i: int| 0 <= i < 2048 && #[trigger] pixels[i] && sprite_covers(x, y, rows, i % 64, i / 64)
}

/// A screen with every pixel dark.
pub open spec fn blank() -> Seq<bool> {
    Seq::new(2048, |i: int| false)
}

/// The presentation value of a pixel.
pub open spec fn shade(lit: bool) -> u32 {
    if lit {
        PIXEL_ON
    } else {
        PIXEL_OFF
    }
}

/// A sprite and the place to draw it: eight pixels wide, one byte per row,
/// first row on top.
pub struct Sprite {
    pub x: u8,
    pub y: u8,
    pub content: Vec<u8>,
}

impl Sprite {
    /// A sprite is at most fifteen rows high.
    pub open spec fn wf(&self) -> bool {
        self.content@.len() <= MAX_SPRITE_ROWS
    }
}

/// The pixel at position `i` of the sequence that `bytes` packs.
spec fn pixel_at(bytes: Seq<u8>, i: int) -> bool {
    bit_of(bytes[i / 8], i % 8)
}

/// The packed bitmap.
pub struct Framebuffer {
    bytes: [u8; 256],
}

impl View for Framebuffer {
    type V = Seq<bool>;

    closed spec fn view(&self) -> Seq<bool> {
        Seq::new(2048, |i: int| pixel_at(self.bytes@, i))
    }
}

/// The part of `sprite_covers` that the drawing loop has reached when it
/// stands before column `c` of row `r`.
spec fn lit_before(x: int, y: int, rows: Seq<u8>, r: int, c: int, i: int) -> bool {
    let column = (i % 64 - x) % 64;
    let row = (i / 64 - y) % 32;
    sprite_covers(x, y, rows, i % 64, i / 64) && (row < r || (row == r && column < c))
}

/// Whether the loop, standing before column `c` of row `r`, has met a lit
/// sprite bit on pixel `i` of a screen on which that pixel was lit.
spec fn hit_at(pixels: Seq<bool>, x: int, y: int, rows: Seq<u8>, r: int, c: int, i: int) -> bool {
    0 <= i < 2048 && pixels[i] && lit_before(x, y, rows, r, c, i)
}

/// XOR with a single bit inverts that bit and keeps the others.
proof fn lemma_flip(byte: u8, bit: u8, position: u8, other: u8)
    by (bit_vector)
    requires
        bit <= 1,
        position < 8,
        other < 8,
    ensures
        (((byte ^ (bit << position)) >> other) & 1u8 == 1u8) == (((byte >> other) & 1u8 == 1u8) ^ (
        other == position && bit == 1)),
{
}

/// A masked bit is zero or one.
proof fn lemma_single_bit(byte: u8, position: u8)
    by (bit_vector)
    requires
        position < 8,
    ensures
        (byte >> position) & 1u8 <= 1,
{
}

/// A byte of zeros has no lit pixel.
proof fn lemma_zero_byte(position: u8)
    by (bit_vector)
    requires
        position < 8,
    ensures
        (0u8 >> position) & 1u8 == 0,
{
}

/// Where the target pixel lies in the packed bitmap, and which sprite bit
/// it takes.
proof fn lemma_target(x: int, y: int, r: int, c: int)
    requires
        0 <= x < 256,
        0 <= y < 256,
        0 <= r < 32,
        0 <= c < 8,
    ensures
        ({
            let t = landing_pixel(x, y, r, c);
            let px = (x + c) % 64;
            let py = (y + r) % 32;
            &&& 0 <= t < 2048
            &&& t / 8 == px / 8 + py * 8
            &&& t % 8 == px % 8
            &&& t % 64 == px
            &&& t / 64 == py
            &&& (t % 64 - x) % 64 == c
            &&& (t / 64 - y) % 32 == r
        }),
{
}

/// No other pixel takes the sprite bit of the target pixel.
proof fn lemma_target_unique(x: int, y: int, r: int, c: int, i: int)
    requires
        0 <= x < 256,
        0 <= y < 256,
        0 <= r < 32,
        0 <= c < 8,
        0 <= i < 2048,
        (i % 64 - x) % 64 == c,
        (i / 64 - y) % 32 == r,
    ensures
        i == landing_pixel(x, y, r, c),
{
    let px = i % 64;
    let py = i / 64;
    assert(px == (x + c) % 64);
    assert(py == (y + r) % 32);
}

/// One step of the drawing loop reaches exactly the target pixel.
proof fn lemma_lit_step(x: int, y: int, rows: Seq<u8>, r: int, c: int, i: int)
    requires
        0 <= x < 256,
        0 <= y < 256,
        0 <= r < rows.len() <= 32,
        0 <= c < 8,
        0 <= i < 2048,
    ensures
        lit_before(x, y, rows, r, c + 1, i) == (lit_before(x, y, rows, r, c, i) || (i == landing_pixel(
            x,
            y,
            r,
            c,
        ) && bit_of(rows[r], c))),
{
    lemma_target(x, y, r, c);
    if (i % 64 - x) % 64 == c && (i / 64 - y) % 32 == r {
        lemma_target_unique(x, y, r, c, i);
    }
}

/// What one step of the drawing loop does to the packed bitmap and to the
/// collision flag, in terms of pixels.
proof fn lemma_draw_step(
    before: Seq<bool>,
    bytes0: Seq<u8>,
    bytes1: Seq<u8>,
    x: int,
    y: int,
    rows: Seq<u8>,
    r: int,
    c: int,
    hit0: bool,
    hit1: bool,
)
    requires
        0 <= x < 256,
        0 <= y < 256,
        0 <= r < rows.len() <= 32,
        0 <= c < 8,
        before.len() == 2048,
        bytes0.len() == 256,
        forall|i: int|
            0 <= i < 2048 ==> #[trigger] pixel_at(bytes0, i) == (before[i] ^ lit_before(
                x,
                y,
                rows,
                r,
                c,
                i,
            )),
        hit0 == (exists|i: int| #[trigger] hit_at(before, x, y, rows, r, c, i)),
        ({
            let px = (x + c) % 64;
            let py = (y + r) % 32;
            let at = px / 8 + py * 8;
            let position = (7 - px % 8) as u8;
            let bit = (rows[r] >> ((7 - c) as u8)) & 1u8;
            &&& bytes1 == bytes0.update(at, bytes0[at] ^ (bit << position))
            &&& hit1 == (hit0 || ((bytes0[at] >> position) & 1u8 == 1u8 && bit == 1u8))
        }),
    ensures
        forall|i: int|
            0 <= i < 2048 ==> #[trigger] pixel_at(bytes1, i) == (before[i] ^ lit_before(
                x,
                y,
                rows,
                r,
                c + 1,
                i,
            )),
        hit1 == (exists|i: int| #[trigger] hit_at(before, x, y, rows, r, c + 1, i)),
{
    let px = (x + c) % 64;
    let py = (y + r) % 32;
    let at = px / 8 + py * 8;
    let position = (7 - px % 8) as u8;
    let bit = (rows[r] >> ((7 - c) as u8)) & 1u8;
    let t = landing_pixel(x, y, r, c);
    lemma_target(x, y, r, c);
    lemma_single_bit(rows[r], (7 - c) as u8);
    assert((bit == 1u8) == bit_of(rows[r], c));
    assert(!lit_before(x, y, rows, r, c, t));
    assert(pixel_at(bytes0, t) == before[t]);
    assert(pixel_at(bytes0, t) == ((bytes0[at] >> position) & 1u8 == 1u8));
    assert forall|i: int| 0 <= i < 2048 implies #[trigger] pixel_at(bytes1, i) == (before[i]
        ^ lit_before(x, y, rows, r, c + 1, i)) by {
        lemma_lit_step(x, y, rows, r, c, i);
        assert(pixel_at(bytes0, i) == (before[i] ^ lit_before(x, y, rows, r, c, i)));
        if i / 8 == at {
            lemma_flip(bytes0[at], bit, position, (7 - i % 8) as u8);
            assert((i == t) == (7 - i % 8 == position as int));
        } else {
            assert(i != t);
        }
    }
    if hit1 {
        if hit0 {
            let w = choose|i: int| #[trigger] hit_at(before, x, y, rows, r, c, i);
            lemma_lit_step(x, y, rows, r, c, w);
            assert(hit_at(before, x, y, rows, r, c + 1, w));
        } else {
            lemma_lit_step(x, y, rows, r, c, t);
            assert(hit_at(before, x, y, rows, r, c + 1, t));
        }
    } else {
        assert forall|i: int| !#[trigger] hit_at(before, x, y, rows, r, c + 1, i) by {
            if 0 <= i < 2048 {
                lemma_lit_step(x, y, rows, r, c, i);
                assert(!hit_at(before, x, y, rows, r, c, i));
            }
        }
    }
}

impl Framebuffer {
    /// A screen has 2048 pixels.
    pub proof fn lemma_size(&self)
        ensures
            self@.len() == PIXELS,
    {
    }

    /// A dark screen.
    pub fn new() -> (screen: Framebuffer)
        ensures
            screen@ == blank(),
    {
        let screen = Framebuffer { bytes: [0u8; 256] };
        proof {
            assert forall|i: int| 0 <= i < 2048 implies !pixel_at(screen.bytes@, i) by {
                lemma_zero_byte((7 - i % 8) as u8);
            }
            assert(screen@ =~= blank());
        }
        screen
    }

    /// Whether pixel `(x mod 64, y mod 32)` is lit.
    pub fn pixel(&self, x: u8, y: u8) -> (lit: bool)
        ensures
            lit == self@[pixel_index(x as int % 64, y as int % 32)],
    {
        let px: usize = x as usize % WIDTH;
        let py: usize = y as usize % HEIGHT;
        let byte: u8 = self.bytes[px / 8 + py * 8];
        let position: u8 = (7 - px % 8) as u8;
        assert(pixel_at(self.bytes@, pixel_index(px as int, py as int)) == ((byte >> position) & 1u8
            == 1u8));
        (byte >> position) & 1 == 1
    }

    /// Composites a sprite onto the screen by XOR and says whether a lit
    /// sprite bit landed on a lit pixel.
    pub fn draw(&mut self, sprite: &Sprite) -> (collision: bool)
        requires
            sprite.wf(),
        ensures
            final(self)@ == drawn(old(self)@, sprite.x as int, sprite.y as int, sprite.content@),
            collision == collides(old(self)@, sprite.x as int, sprite.y as int, sprite.content@),
        no_unwind
    {
        let ghost before = self@;
        let ghost x = sprite.x as int;
        let ghost y = sprite.y as int;
        let ghost rows = sprite.content@;
        let height: usize = sprite.content.len();
        let mut collision: bool = false;
        let mut row: usize = 0;
        while row < height
            invariant
                row <= height,
                height == rows.len(),
                height <= 15,
                x == sprite.x,
                y == sprite.y,
                rows == sprite.content@,
                before.len() == 2048,
                forall|i: int|
                    0 <= i < 2048 ==> #[trigger] pixel_at(self.bytes@, i) == (before[i] ^ lit_before(x, y, rows, row as int, 0, i)),
                collision == (exists|i: int| #[trigger] hit_at(before, x, y, rows, row as int, 0, i)),
            decreases height - row,
        {
            let content_byte: u8 = sprite.content[row];
            let py: usize = (sprite.y as usize + row) % HEIGHT;
            let mut column: usize = 0;
            while column < SPRITE_WIDTH
                invariant
                    row < height,
                    height == rows.len(),
                    height <= 15,
                    column <= 8,
                    x == sprite.x,
                    y == sprite.y,
                    rows == sprite.content@,
                    content_byte == rows[row as int],
                    py == (y + row) % 32,
                    before.len() == 2048,
                    forall|i: int|
                        0 <= i < 2048 ==> #[trigger] pixel_at(self.bytes@, i) == (before[i]
                            ^ lit_before(x, y, rows, row as int, column as int, i)),
                    collision == (exists|i: int| #[trigger]
                        hit_at(before, x, y, rows, row as int, column as int, i)),
                decreases 8 - column,
            {
                let px: usize = (sprite.x as usize + column) % WIDTH;
                let byte_index: usize = px / 8 + py * 8;
                let bit_position: u8 = (7 - px % 8) as u8;
                let display_byte: u8 = self.bytes[byte_index];
                let display_pixel: u8 = (display_byte >> bit_position) & 1;
                let sprite_pixel: u8 = (content_byte >> ((7 - column) as u8)) & 1;
                let ghost bytes_before = self.bytes@;
                let ghost collision_before = collision;
                if display_pixel == 1 && sprite_pixel == 1 {
                    collision = true;
                }
                self.bytes[byte_index] = display_byte ^ (sprite_pixel << bit_position);
                proof {
                    lemma_draw_step(
                        before,
                        bytes_before,
                        self.bytes@,
                        x,
                        y,
                        rows,
                        row as int,
                        column as int,
                        collision_before,
                        collision,
                    );
                }
                column += 1;
            }
            proof {
                let r = row as int;
                assert forall|i: int| 0 <= i < 2048 implies #[trigger] lit_before(x, y, rows, r, 8, i)
                    == lit_before(x, y, rows, r + 1, 0, i) by {}
                if collision {
                    let w = choose|i: int| #[trigger] hit_at(before, x, y, rows, r, 8, i);
                    assert(hit_at(before, x, y, rows, r + 1, 0, w));
                } else {
                    assert forall|i: int| !#[trigger] hit_at(before, x, y, rows, r + 1, 0, i) by {
                        assert(!hit_at(before, x, y, rows, r, 8, i));
                    }
                }
            }
            row += 1;
        }
        proof {
            let n = rows.len() as int;
            assert forall|i: int| 0 <= i < 2048 implies #[trigger] lit_before(x, y, rows, n, 0, i)
                == sprite_covers(x, y, rows, i % 64, i / 64) by {}
            assert(self@ =~= drawn(before, x, y, rows));
            if collision {
                let w = choose|i: int| #[trigger] hit_at(before, x, y, rows, n, 0, i);
                assert(before[w] && sprite_covers(x, y, rows, w % 64, w / 64));
            } else {
                assert forall|i: int| 0 <= i < 2048 && #[trigger] before[i] implies !sprite_covers(
                    x,
                    y,
                    rows,
                    i % 64,
                    i / 64,
                ) by {
                    assert(!hit_at(before, x, y, rows, n, 0, i));
                }
            }
        }
        collision
    }

    /// The screen as a row-major sequence of presentation values, one per
    /// pixel, for whoever shows it.
    pub fn to_buffer(&self) -> (buffer: Vec<u32>)
        ensures
            buffer@.len() == 2048,
            forall|i: int| 0 <= i < 2048 ==> #[trigger] buffer@[i] == shade(self@[i]),
    {
        let mut buffer: Vec<u32> = Vec::with_capacity(PIXELS);
        let mut index: usize = 0;
        while index < DISPLAY_BYTES
            invariant
                index <= 256,
                buffer@.len() == index * 8,
                forall|i: int|
                    0 <= i < index * 8 ==> #[trigger] buffer@[i] == shade(pixel_at(self.bytes@, i)),
            decreases 256 - index,
        {
            let byte: u8 = self.bytes[index];
            let mut column: usize = 0;
            while column < 8
                invariant
                    index < 256,
                    column <= 8,
                    byte == self.bytes@[index as int],
                    buffer@.len() == index * 8 + column,
                    forall|i: int|
                        0 <= i < index * 8 + column ==> #[trigger] buffer@[i] == shade(
                            pixel_at(self.bytes@, i),
                        ),
                decreases 8 - column,
            {
                let lit: bool = (byte >> ((7 - column) as u8)) & 1 == 1;
                let color: u32 = if lit {
                    PIXEL_ON
                } else {
                    PIXEL_OFF
                };
                assert(lit == pixel_at(self.bytes@, index * 8 + column));
                buffer.push(color);
                column += 1;
            }
            index += 1;
        }
        buffer
    }
}

/// Every bit of a sprite no taller than the screen reaches the screen: bit
/// `c` of row `r` is XORed into the pixel at `((x + c) mod 64, (y + r) mod
/// 32)`, so a sprite that crosses an edge comes back in on the opposite
/// edge and is never clipped.
pub proof fn law_sprite_bit_lands(pixels: Seq<bool>, x: u8, y: u8, rows: Seq<u8>, r: int, c: int)
    requires
        pixels.len() == 2048,
        0 <= r < rows.len() <= 32,
        0 <= c < 8,
    ensures
        0 <= landing_pixel(x as int, y as int, r, c) < 2048,
        drawn(pixels, x as int, y as int, rows)[landing_pixel(x as int, y as int, r, c)] == (pixels[landing_pixel(
            x as int,
            y as int,
            r,
            c,
        )] ^ bit_of(rows[r], c)),
{
    lemma_target(x as int, y as int, r, c);
}

/// A pixel on which no sprite bit lands keeps its state.
pub proof fn law_draw_keeps_other_pixels(pixels: Seq<bool>, x: u8, y: u8, rows: Seq<u8>, i: int)
    requires
        pixels.len() == 2048,
        rows.len() <= 32,
        0 <= i < 2048,
        forall|r: int, c: int|
            0 <= r < rows.len() && 0 <= c < 8 ==> i != #[trigger] landing_pixel(
                x as int,
                y as int,
                r,
                c,
            ),
    ensures
        drawn(pixels, x as int, y as int, rows)[i] == pixels[i],
{
    let c = (i % 64 - x) % 64;
    let r = (i / 64 - y) % 32;
    if c < 8 && r < rows.len() {
        lemma_target_unique(x as int, y as int, r, c, i);
        assert(i == landing_pixel(x as int, y as int, r, c));
    }
}

/// A sprite drawn in the last screen column has its second column in
/// screen column 0 of the same row.
pub proof fn law_draw_wraps_at_right_edge(pixels: Seq<bool>, y: u8, rows: Seq<u8>, r: int)
    requires
        pixels.len() == 2048,
        0 <= r < rows.len() <= 32,
    ensures
        landing_pixel(63, y as int, r, 1) == pixel_index(0, (y + r) % 32),
        drawn(pixels, 63, y as int, rows)[pixel_index(0, (y + r) % 32)] == (pixels[pixel_index(
            0,
            (y + r) % 32,
        )] ^ bit_of(rows[r], 1)),
{
    law_sprite_bit_lands(pixels, 63, y, rows, r, 1);
}

/// A draw collides exactly when some lit bit of the sprite lands on a lit
/// pixel; one such bit is enough, whatever the others meet.
pub proof fn law_collision_is_some_strike(pixels: Seq<bool>, x: u8, y: u8, rows: Seq<u8>)
    requires
        pixels.len() == 2048,
        rows.len() <= 32,
    ensures
        collides(pixels, x as int, y as int, rows) <==> exists|r: int, c: int| #[trigger]
            strikes(pixels, x as int, y as int, rows, r, c),
{
    let xi = x as int;
    let yi = y as int;
    if collides(pixels, xi, yi, rows) {
        let i = choose|i: int|
            0 <= i < 2048 && #[trigger] pixels[i] && sprite_covers(xi, yi, rows, i % 64, i / 64);
        let c = (i % 64 - xi) % 64;
        let r = (i / 64 - yi) % 32;
        lemma_target_unique(xi, yi, r, c, i);
        assert(strikes(pixels, xi, yi, rows, r, c));
    }
    if exists|r: int, c: int| #[trigger] strikes(pixels, xi, yi, rows, r, c) {
        let (r, c) = choose|r: int, c: int| #[trigger] strikes(pixels, xi, yi, rows, r, c);
        lemma_target(xi, yi, r, c);
        let i = landing_pixel(xi, yi, r, c);
        assert(pixels[i] && sprite_covers(xi, yi, rows, i % 64, i / 64));
    }
}

/// Drawing the same sprite twice at the same place restores every pixel,
/// and the second draw collides exactly when the first one lit a pixel:
/// when a lit sprite bit landed on a pixel that was dark.
pub proof fn law_draw_twice_restores(pixels: Seq<bool>, x: u8, y: u8, rows: Seq<u8>)
    requires
        pixels.len() == 2048,
    ensures
        drawn(drawn(pixels, x as int, y as int, rows), x as int, y as int, rows) == pixels,
        collides(drawn(pixels, x as int, y as int, rows), x as int, y as int, rows) <==> exists|
            i: int,
        |
            0 <= i < 2048 && !#[trigger] pixels[i] && sprite_covers(
                x as int,
                y as int,
                rows,
                i % 64,
                i / 64,
            ),
{
    let xi = x as int;
    let yi = y as int;
    let once = drawn(pixels, xi, yi, rows);
    assert(drawn(once, xi, yi, rows) =~= pixels);
    if collides(once, xi, yi, rows) {
        let i = choose|i: int|
            0 <= i < 2048 && #[trigger] once[i] && sprite_covers(xi, yi, rows, i % 64, i / 64);
        assert(!pixels[i]);
    }
    if exists|i: int|
        0 <= i < 2048 && !#[trigger] pixels[i] && sprite_covers(xi, yi, rows, i % 64, i / 64) {
        let i = choose|i: int|
            0 <= i < 2048 && !#[trigger] pixels[i] && sprite_covers(xi, yi, rows, i % 64, i / 64);
        assert(once[i]);
    }
}

} // verus!
