//! A grey-scale canvas: an image buffer of the `image` crate, one byte per
//! pixel, reached through a handful of calls whose contracts are taken on
//! trust from that crate's source.

use vstd::prelude::*;

verus! {

/// A grey-scale image of the `image` crate.  What it holds is known to the
/// verifier only through [`canvas_pixels`] and [`canvas_dimensions`].
#[verifier::external_body]
pub struct GrayCanvas {
    inner: image::GrayImage,
}

/// The pixels of a canvas: the intensity at each column and row.
pub uninterp spec fn canvas_pixels(canvas: GrayCanvas) -> Map<(int, int), u8>;

/// The width and height that a canvas was made with.
pub uninterp spec fn canvas_dimensions(canvas: GrayCanvas) -> (u32, u32);

/// The position `(x, y)` lies on a canvas of the given dimensions.
pub open spec fn on_canvas(dimensions: (u32, u32), x: int, y: int) -> bool {
    0 <= x < dimensions.0 && 0 <= y < dimensions.1
}

/// The positions of a canvas of the given dimensions.
pub open spec fn canvas_positions(dimensions: (u32, u32)) -> Set<(int, int)> {
    Set::new(|p: (int, int)| on_canvas(dimensions, p.0, p.1))
}

/// Largest number of pixels of a canvas that this library makes or fills.
/// The `image` crate computes pixel offsets in 32 bits and the length of its
/// buffer in machine words, which may be as narrow as 32 bits.
pub const MAX_PIXELS: u64 = 0xffff_ffff;

/// Calls `image::ImageBuffer::new`, which allocates `width * height` zeroed
/// samples, the product computed in machine words.  Claimed for a product
/// that fits a machine word: the canvas has the dimensions asked for and
/// every pixel on it is zero.
#[verifier::external_body]
fn canvas_new(width: u32, height: u32) -> (canvas: GrayCanvas)
    requires
        width * height <= MAX_PIXELS,
        width * height <= usize::MAX,
    ensures
        canvas_dimensions(canvas) == (width, height),
        canvas_pixels(canvas).dom() == canvas_positions((width, height)),
        forall|x: int, y: int|
            on_canvas((width, height), x, y) ==> #[trigger] canvas_pixels(canvas)[(x, y)] == 0,
{
    GrayCanvas { inner: image::GrayImage::new(width, height) }
}

/// Calls `image::ImageBuffer::dimensions`, which returns the stored width
/// and height.  Claimed besides: a canvas holds a pixel exactly at the
/// positions within its dimensions, as the constructors of the `image`
/// crate ensure.
#[verifier::external_body]
fn canvas_size(canvas: &GrayCanvas) -> (dimensions: (u32, u32))
    ensures
        dimensions == canvas_dimensions(*canvas),
        canvas_pixels(*canvas).dom() == canvas_positions(dimensions),
{
    canvas.inner.dimensions()
}

/// Calls `image::ImageBuffer::put_pixel`, which overwrites the sample at
/// offset `y * width + x`, computed in 32 bits, and panics when the offset
/// is outside the buffer.  Claimed for a position on the canvas whose offset
/// fits 32 bits: that pixel takes the value, and nothing else changes.
#[verifier::external_body]
fn canvas_put(canvas: &mut GrayCanvas, x: u32, y: u32, value: u8)
    requires
        on_canvas(canvas_dimensions(*old(canvas)), x as int, y as int),
        y * canvas_dimensions(*old(canvas)).0 + x <= u32::MAX,
    ensures
        canvas_dimensions(*final(canvas)) == canvas_dimensions(*old(canvas)),
        canvas_pixels(*final(canvas)) == canvas_pixels(*old(canvas)).insert(
            (x as int, y as int),
            value,
        ),
{
    canvas.inner.put_pixel(x, y, image::Luma { data: [value] });
}

/// Calls `image::ImageBuffer::into_raw`, which returns the buffer of
/// samples.  Claimed: the buffer holds at least `width * height` samples,
/// and the pixel at `(x, y)` is the sample at offset `y * width + x`.
#[verifier::external_body]
fn canvas_into_raw(canvas: GrayCanvas) -> (raw: Vec<u8>)
    ensures
        raw@.len() >= canvas_dimensions(canvas).0 * canvas_dimensions(canvas).1,
        forall|x: int, y: int|
            on_canvas(canvas_dimensions(canvas), x, y) ==> raw@[y * canvas_dimensions(canvas).0
                + x] == #[trigger] canvas_pixels(canvas)[(x, y)],
{
    canvas.inner.into_raw()
}

impl GrayCanvas {
    /// A canvas of zeroes, or `None` if it would hold more than `MAX_PIXELS`
    /// pixels.
    pub fn new(width: u32, height: u32) -> (made: Option<GrayCanvas>)
        ensures
            made.is_some() <==> width * height <= MAX_PIXELS,
            made matches Some(canvas) ==> {
                &&& canvas_dimensions(canvas) == (width, height)
                &&& canvas_pixels(canvas).dom() == canvas_positions((width, height))
                &&& forall|x: int, y: int|
                    on_canvas((width, height), x, y) ==> #[trigger] canvas_pixels(canvas)[(x, y)]
                        == 0
            },
    {
        assert(width * height <= 0xffff_ffff * 0xffff_ffff) by (nonlinear_arith)
            requires
                0 <= width <= 0xffff_ffff,
                0 <= height <= 0xffff_ffff,
        ;
        if (width as u64) * (height as u64) <= MAX_PIXELS {
            Some(canvas_new(width, height))
        } else {
            None
        }
    }

    /// Width and height.
    pub fn dimensions(&self) -> (dimensions: (u32, u32))
        ensures
            dimensions == canvas_dimensions(*self),
            canvas_pixels(*self).dom() == canvas_positions(dimensions),
    {
        canvas_size(self)
    }

    /// Sets the pixel at `(x, y)` if that position is on the canvas and the
    /// canvas has at most `MAX_PIXELS` pixels; says whether it did.
    pub fn put_pixel(&mut self, x: u32, y: u32, value: u8) -> (done: bool)
        ensures
            canvas_dimensions(*final(self)) == canvas_dimensions(*old(self)),
            done <==> on_canvas(canvas_dimensions(*old(self)), x as int, y as int)
                && canvas_dimensions(*old(self)).0 * canvas_dimensions(*old(self)).1 <= MAX_PIXELS,
            done ==> canvas_pixels(*final(self)) == canvas_pixels(*old(self)).insert(
                (x as int, y as int),
                value,
            ),
            !done ==> canvas_pixels(*final(self)) == canvas_pixels(*old(self)),
    {
        let (width, height): (u32, u32) = canvas_size(self);
        assert(width * height <= 0xffff_ffff * 0xffff_ffff) by (nonlinear_arith)
            requires
                0 <= width <= 0xffff_ffff,
                0 <= height <= 0xffff_ffff,
        ;
        if x < width && y < height && (width as u64) * (height as u64) <= MAX_PIXELS {
            proof {
                lemma_offset_fits(x as int, y as int, width as int, height as int);
            }
            canvas_put(self, x, y, value);
            true
        } else {
            false
        }
    }

    /// The samples of the canvas, row after row: exactly one for each pixel.
    /// Whatever the buffer of the image holds beyond its pixels is cut off.
    pub fn into_raw(self) -> (raw: Vec<u8>)
        ensures
            raw@.len() == canvas_dimensions(self).0 * canvas_dimensions(self).1,
            forall|x: int, y: int|
                on_canvas(canvas_dimensions(self), x, y) ==> raw@[y * canvas_dimensions(self).0 + x]
                    == #[trigger] canvas_pixels(self)[(x, y)],
    {
        let (width, height): (u32, u32) = canvas_size(&self);
        let mut raw: Vec<u8> = canvas_into_raw(self);
        let ghost whole: Seq<u8> = raw@;
        let held: usize = raw.len();
        assert(width * height <= held);
        let count: usize = (width as usize) * (height as usize);
        raw.truncate(count);
        proof {
            assert forall|x: int, y: int| on_canvas((width, height), x, y) implies raw@[y * width
                + x] == whole[y * width + x] by {
                lemma_offset_in_range(x, y, width as int, height as int);
            }
        }
        raw
    }
}

/// The offset of a position on the canvas lies below the number of pixels.
pub proof fn lemma_offset_in_range(x: int, y: int, width: int, height: int)
    requires
        0 <= x < width,
        0 <= y < height,
    ensures
        0 <= y * width + x < width * height,
{
    assert(0 <= y * width + x < width * height) by (nonlinear_arith)
        requires
            0 <= x < width,
            0 <= y < height,
    ;
}

/// On a canvas of at most `MAX_PIXELS` pixels every offset fits 32 bits.
pub proof fn lemma_offset_fits(x: int, y: int, width: int, height: int)
    requires
        0 <= x < width,
        0 <= y < height,
        width * height <= MAX_PIXELS,
    ensures
        0 <= y * width + x <= u32::MAX,
{
    assert(0 <= y * width + x < width * height) by (nonlinear_arith)
        requires
            0 <= x < width,
            0 <= y < height,
    ;
}

} // verus!
