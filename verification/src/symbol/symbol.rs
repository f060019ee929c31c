//! The symbol: a red cross on a black square of 32 by 32 pixels.
//!
//! The symbol is drawn on an image of the `image` crate and handed out as the
//! samples of that image: three bytes for each pixel, red, green and blue,
//! row after row.

use vstd::prelude::*;

verus! {

/// The width and the height of the symbol in pixels.
pub const SIDE: u32 = 32;

/// A colour: red, green and blue.
pub type Colour = (u8, u8, u8);

/// An image of eight-bit RGB pixels, as the `image` crate holds it. What is
/// inside is not looked into: [`pixels`] names what the image shows.
#[verifier::external_body]
pub struct Canvas {
    image: image::RgbImage,
}

/// The pixels of an image: its rows from the top, each row from the left.
/// All rows are as long as the image is wide.
pub uninterp spec fn pixels(canvas: Canvas) -> Seq<Seq<Colour>>;

/// Calls `ImageBuffer::new`, which gives an image of the given width and
/// height in which every sample is zero, and panics where the count of
/// samples is more than a `usize` holds.
#[verifier::external_body]
fn blank(width: u32, height: u32) -> (canvas: Canvas)
    requires
        3 * width * height <= usize::MAX,
    ensures
        pixels(canvas) == Seq::new(
            height as nat,
            |y: int| Seq::new(width as nat, |x: int| (0u8, 0u8, 0u8)),
        ),
{
    Canvas { image: image::RgbImage::new(width, height) }
}

/// Calls `ImageBuffer::put_pixel`, which replaces the pixel at column `x` of
/// row `y`, and panics where the image has no such pixel.
#[verifier::external_body]
fn paint(canvas: &mut Canvas, x: u32, y: u32, colour: Colour)
    requires
        y < pixels(*old(canvas)).len(),
        x < pixels(*old(canvas))[y as int].len(),
    ensures
        pixels(*final(canvas)) == pixels(*old(canvas)).update(
            y as int,
            pixels(*old(canvas))[y as int].update(x as int, colour),
        ),
{
    canvas.image.put_pixel(x, y, image::Rgb([colour.0, colour.1, colour.2]));
}

/// The three samples from `at` on are the red, the green and the blue of the
/// colour.
pub open spec fn holds_colour(samples: Seq<u8>, at: int, colour: Colour) -> bool {
    &&& 0 <= at
    &&& at + 2 < samples.len()
    &&& samples[at] == colour.0
    &&& samples[at + 1] == colour.1
    &&& samples[at + 2] == colour.2
}

/// Calls `ImageBuffer::into_raw`, which gives the samples of the image: those
/// of the pixel at column `x` of row `y` stand from `(y * width + x) * 3` on,
/// red first, then green, then blue, and there are no other samples.
#[verifier::external_body]
fn into_samples(canvas: Canvas) -> (samples: Vec<u8>)
    ensures
        forall|y: int, x: int|
            0 <= y < pixels(canvas).len() && 0 <= x < pixels(canvas)[y].len() ==> holds_colour(
                samples@,
                (y * pixels(canvas)[y].len() + x) * 3,
                #[trigger] pixels(canvas)[y][x],
            ),
        samples@.len() == if pixels(canvas).len() == 0 {
            0
        } else {
            3 * pixels(canvas).len() * pixels(canvas)[0].len()
        },
{
    canvas.image.into_raw()
}

/// The pixel lies on the cross: on the three middle columns or the three
/// middle rows, from 8 up to and without 24.
pub open spec fn on_cross(x: int, y: int) -> bool {
    ||| 15 <= x <= 17 && 8 <= y < 24
    ||| 15 <= y <= 17 && 8 <= x < 24
}

/// The pixels of the cross that are painted once the bars before `bar` are
/// done and, of the bar `bar`, the steps before `step`.
pub open spec fn painted(x: int, y: int, bar: int, step: int) -> bool {
    ||| 15 <= x < bar && 8 <= y < 24
    ||| 15 <= y < bar && 8 <= x < 24
    ||| x == bar && 8 <= y < step
    ||| y == bar && 8 <= x < step
}

/// The colour of a pixel of a picture in red on black.
pub open spec fn red_or_black(red: bool) -> Colour {
    if red {
        (255u8, 0u8, 0u8)
    } else {
        (0u8, 0u8, 0u8)
    }
}

/// The picture of the cross as far as it is painted.
pub open spec fn picture(bar: int, step: int) -> Seq<Seq<Colour>> {
    Seq::new(
        SIDE as nat,
        |y: int| Seq::new(SIDE as nat, |x: int| red_or_black(painted(x, y, bar, step))),
    )
}

/// The samples of the symbol: sample `at` is the channel `at % 3` of the
/// pixel at column `(at / 3) % 32` of row `(at / 3) / 32`. The red channel of
/// a pixel on the cross is 255; every other sample is 0.
pub open spec fn symbol_samples() -> Seq<u8> {
    Seq::new(
        (3 * SIDE * SIDE) as nat,
        |at: int|
            if at % 3 == 0 && on_cross((at / 3) % (SIDE as int), (at / 3) / (SIDE as int)) {
                255u8
            } else {
                0u8
            },
    )
}

/// Draws the symbol and gives its samples.
pub fn make_symbol() -> (symbol: Vec<u8>)
    ensures
        symbol@ == symbol_samples(),
{
    let mut canvas = blank(SIDE, SIDE);
    let mut bar: u32 = 15;
    assert(pixels(canvas) =~~= picture(15, 8));
    while bar <= 17
        invariant
            15 <= bar <= 18,
            pixels(canvas) == picture(bar as int, 8),
        decreases 18 - bar,
    {
        let mut step: u32 = 8;
        while step < 24
            invariant
                15 <= bar <= 17,
                8 <= step <= 24,
                pixels(canvas) == picture(bar as int, step as int),
            decreases 24 - step,
        {
            paint(&mut canvas, bar, step, (255, 0, 0));
            paint(&mut canvas, step, bar, (255, 0, 0));
            step = step + 1;
            assert(pixels(canvas) =~~= picture(bar as int, step as int));
        }
        bar = bar + 1;
        assert(pixels(canvas) =~~= picture(bar as int, 8));
    }
    let ghost drawn = pixels(canvas);
    let symbol = into_samples(canvas);
    proof {
        assert(symbol@.len() == 3 * SIDE * SIDE);
        assert forall|at: int| 0 <= at < symbol@.len() implies symbol@[at] == symbol_samples()[at]
        by {
            let pixel = at / 3;
            let y = pixel / (SIDE as int);
            let x = pixel % (SIDE as int);
            let colour = drawn[y][x];
            assert(colour == red_or_black(on_cross(x, y)));
            let width = drawn[y].len() as int;
            assert(y * width == y * 32) by (nonlinear_arith)
                requires
                    width == 32,
            ;
            assert((y * width + x) * 3 + at % 3 == at);
        }
        assert(symbol@ =~= symbol_samples());
    }
    symbol
}

} // verus!
