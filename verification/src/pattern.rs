//! A moving test pattern: diagonal stripes that shift with the frame index.

use vstd::prelude::*;
use crate::canvas::{
    canvas_dimensions, canvas_pixels, canvas_positions, lemma_offset_fits, on_canvas, GrayCanvas,
    MAX_PIXELS,
};

verus! {

/// Intensity of the pattern of frame `n` at `(x, y)`: the sum of the three,
/// reduced to a byte.
pub open spec fn pattern_value(n: u64, x: int, y: int) -> int {
    (x + y + n) % 256
}

/// The pattern of frame `n` on a canvas of the given dimensions.
pub open spec fn pattern_pixels(n: u64, dimensions: (u32, u32)) -> Map<(int, int), u8> {
    Map::new(
        |p: (int, int)| on_canvas(dimensions, p.0, p.1),
        |p: (int, int)| pattern_value(n, p.0, p.1) as u8,
    )
}

/// Computes one intensity of the pattern.
pub fn pattern_at(n: u64, x: u32, y: u32) -> (value: u8)
    ensures
        value == pattern_value(n, x as int, y as int),
{
    ((x % 256 + y % 256 + (n % 256) as u32) % 256) as u8
}

/// Fills the canvas with the pattern of frame `n`.
pub fn text_pattern_render(n: u64, img: &mut GrayCanvas)
    requires
        canvas_dimensions(*old(img)).0 * canvas_dimensions(*old(img)).1 <= MAX_PIXELS,
    ensures
        canvas_dimensions(*final(img)) == canvas_dimensions(*old(img)),
        canvas_pixels(*final(img)) == pattern_pixels(n, canvas_dimensions(*old(img))),
{
    let (width, height): (u32, u32) = img.dimensions();
    let mut x: u32 = 0;
    while x < width
        invariant
            x <= width,
            width * height <= MAX_PIXELS,
            canvas_dimensions(*img) == (width, height),
            canvas_pixels(*img).dom() == canvas_positions((width, height)),
            forall|cx: int, cy: int|
                0 <= cx < x && 0 <= cy < height ==> #[trigger] canvas_pixels(*img)[(cx, cy)]
                    == pattern_value(n, cx, cy),
        decreases width - x,
    {
        let mut y: u32 = 0;
        while y < height
            invariant
                x < width,
                y <= height,
                width * height <= MAX_PIXELS,
                canvas_dimensions(*img) == (width, height),
                canvas_pixels(*img).dom() == canvas_positions((width, height)),
                forall|cx: int, cy: int|
                    0 <= cx < x && 0 <= cy < height ==> #[trigger] canvas_pixels(*img)[(cx, cy)]
                        == pattern_value(n, cx, cy),
                forall|cy: int|
                    0 <= cy < y ==> #[trigger] canvas_pixels(*img)[(x as int, cy)] == pattern_value(
                        n,
                        x as int,
                        cy,
                    ),
            decreases height - y,
        {
            proof {
                lemma_offset_fits(x as int, y as int, width as int, height as int);
            }
            let value: u8 = pattern_at(n, x, y);
            let done: bool = img.put_pixel(x, y, value);
            assert(done);
            assert(canvas_pixels(*img).dom() =~= canvas_positions((width, height)));
            y = y + 1;
        }
        x = x + 1;
    }
    assert(canvas_pixels(*img) =~= pattern_pixels(n, (width, height)));
}

/// Fills the canvas with the pattern of frame `n` unless it holds more than
/// `MAX_PIXELS` pixels; says whether it did.
pub fn text_pattern_render_checked(n: u64, img: &mut GrayCanvas) -> (done: bool)
    ensures
        canvas_dimensions(*final(img)) == canvas_dimensions(*old(img)),
        done <==> canvas_dimensions(*old(img)).0 * canvas_dimensions(*old(img)).1 <= MAX_PIXELS,
        done ==> canvas_pixels(*final(img)) == pattern_pixels(n, canvas_dimensions(*old(img))),
        !done ==> canvas_pixels(*final(img)) == canvas_pixels(*old(img)),
{
    let (width, height): (u32, u32) = img.dimensions();
    assert(width * height <= 0xffff_ffff * 0xffff_ffff) by (nonlinear_arith)
        requires
            0 <= width <= 0xffff_ffff,
            0 <= height <= 0xffff_ffff,
    ;
    if (width as u64) * (height as u64) <= MAX_PIXELS {
        text_pattern_render(n, img);
        true
    } else {
        false
    }
}

} // verus!
