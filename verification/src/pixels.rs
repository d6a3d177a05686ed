//! Trusted boundary to the `image` crate's RGBA pixel buffer.
//!
//! The renderer assembles its output in an `image::ImageBuffer` of RGBA
//! bytes, held here in an opaque wrapper struct. The buffer's contents
//! are named by two spec functions — the underlying row-major byte
//! container and the buffer's dimensions — and each method the renderer
//! calls is wrapped with a contract over those names, taken from the
//! crate's source: pixel `(x, y)` of a `width` by `height` buffer
//! occupies the four bytes starting at `4 * (y * width + x)`, in channel
//! order red, green, blue, alpha.

use vstd::prelude::*;

verus! {

/// An RGBA pixel buffer of the `image` crate, opaque to verification.
#[verifier::external_body]
pub struct Canvas {
    inner: image::ImageBuffer<image::Rgba<u8>, Vec<u8>>,
}

/// The bytes of the canvas's underlying row-major container, in order.
pub uninterp spec fn canvas_bytes(c: Canvas) -> Seq<u8>;

/// The canvas's width and height in pixels.
pub uninterp spec fn canvas_dims(c: Canvas) -> (int, int);

/// One channel of an RGBA value: red, green, blue, alpha in that order.
pub open spec fn channel_byte(c: (u8, u8, u8, u8), k: int) -> u8 {
    if k == 0 {
        c.0
    } else if k == 1 {
        c.1
    } else if k == 2 {
        c.2
    } else {
        c.3
    }
}

/// Relies on image::ImageBuffer::from_pixel: a fresh width-by-height RGBA
/// buffer whose row-major container holds exactly `4 * width * height`
/// bytes, every pixel set to the given channel values. It panics only
/// when that byte count overflows `usize`, which the contract excludes.
#[verifier::external_body]
pub(crate) fn canvas_new(width: u32, height: u32, c: (u8, u8, u8, u8)) -> (canvas: Canvas)
    requires
        4 * (width as int) * (height as int) <= usize::MAX as int,
    ensures
        canvas_dims(canvas) == (width as int, height as int),
        canvas_bytes(canvas) == Seq::new(
            (4 * (width as int) * (height as int)) as nat,
            |i: int| channel_byte(c, i % 4),
        ),
{
    Canvas { inner: image::ImageBuffer::from_pixel(width, height, image::Rgba([c.0, c.1, c.2, c.3])) }
}

/// Relies on image::ImageBuffer::put_pixel: writes exactly the four bytes
/// of the pixel at `(x, y)`, at offset `4 * (y * width + x)` of the
/// row-major container. It panics only when `(x, y)` is out of the
/// buffer's bounds, which the contract excludes.
#[verifier::external_body]
pub(crate) fn canvas_set(canvas: &mut Canvas, x: u32, y: u32, c: (u8, u8, u8, u8))
    requires
        (x as int) < canvas_dims(*old(canvas)).0,
        (y as int) < canvas_dims(*old(canvas)).1,
    ensures
        canvas_dims(*final(canvas)) == canvas_dims(*old(canvas)),
        canvas_bytes(*final(canvas)) == canvas_bytes(*old(canvas)).update(
            4 * ((y as int) * canvas_dims(*old(canvas)).0 + (x as int)) + 0,
            c.0,
        ).update(4 * ((y as int) * canvas_dims(*old(canvas)).0 + (x as int)) + 1, c.1).update(
            4 * ((y as int) * canvas_dims(*old(canvas)).0 + (x as int)) + 2,
            c.2,
        ).update(4 * ((y as int) * canvas_dims(*old(canvas)).0 + (x as int)) + 3, c.3),
{
    canvas.inner.put_pixel(x, y, image::Rgba([c.0, c.1, c.2, c.3]));
}

/// Relies on image::ImageBuffer::into_raw: hands back the underlying
/// row-major byte container unchanged.
#[verifier::external_body]
pub(crate) fn canvas_into_bytes(canvas: Canvas) -> (r: Vec<u8>)
    ensures
        r@ == canvas_bytes(canvas),
{
    canvas.inner.into_raw()
}

} // verus!
