//! The calls into the `image` crate that compositing relies on.

use vstd::prelude::*;

use crate::canvas::pixel_of;

verus! {

/// The buffer that `image::imageops::overlay` leaves when it draws the RGBA8
/// buffer `top` over `bottom`, both `width` x `height`, at (0, 0).
pub uninterp spec fn overlay_result(bottom: Seq<u8>, top: Seq<u8>, width: u32, height: u32) -> Seq<u8>;

/// Relies on `image::imageops::overlay` at (0, 0) on two RGBA8 images of the
/// same size: each pixel of `top` is blended over the pixel of `bottom` at
/// the same place (`Rgba::blend`), which keeps the bottom pixel where the top
/// one has alpha 0 and takes the top one where it has alpha 255.
#[verifier::external_body]
pub(crate) fn overlay_buffers(bottom: &mut Vec<u8>, top: &Vec<u8>, width: u32, height: u32)
    requires
        old(bottom)@.len() == width * height * 4,
        top@.len() == width * height * 4,
    ensures
        final(bottom)@ == overlay_result(old(bottom)@, top@, width, height),
        final(bottom)@.len() == old(bottom)@.len(),
        forall|i: int|
            0 <= i < width * height && (#[trigger] pixel_of(top@, i)).a == 0 ==> pixel_of(
                final(bottom)@,
                i,
            ) == pixel_of(old(bottom)@, i),
        forall|i: int|
            0 <= i < width * height && (#[trigger] pixel_of(top@, i)).a == 255 ==> pixel_of(
                final(bottom)@,
                i,
            ) == pixel_of(top@, i),
{
    let raw = std::mem::take(bottom);
    let mut b: image::RgbaImage = image::ImageBuffer::from_raw(width, height, raw).unwrap();
    let t: image::ImageBuffer<image::Rgba<u8>, &[u8]> = image::ImageBuffer::from_raw(
        width,
        height,
        top.as_slice(),
    ).unwrap();
    image::imageops::overlay(&mut b, &t, 0, 0);
    *bottom = b.into_raw();
}

/// Relies on `image::imageops::replace`: the RGBA8 image `top`
/// (`top_width` x `top_height`) is copied into `bottom` with its top-left
/// corner at (`x`, `y`), clipped to `bottom`; the other pixels of `bottom`
/// stay as they were.
#[verifier::external_body]
pub(crate) fn replace_buffers(
    bottom: &mut Vec<u8>,
    width: u32,
    height: u32,
    top: &Vec<u8>,
    top_width: u32,
    top_height: u32,
    x: u32,
    y: u32,
)
    requires
        old(bottom)@.len() == width * height * 4,
        top@.len() == top_width * top_height * 4,
    ensures
        final(bottom)@.len() == old(bottom)@.len(),
        forall|i: int|
            0 <= i < width * height ==> #[trigger] pixel_of(final(bottom)@, i) == if x <= i % (
            width as int) < x + top_width && y <= i / (width as int) < y + top_height {
                pixel_of(top@, (i / (width as int) - y) * top_width + (i % (width as int) - x))
            } else {
                pixel_of(old(bottom)@, i)
            },
{
    let raw = std::mem::take(bottom);
    let mut b: image::RgbaImage = image::ImageBuffer::from_raw(width, height, raw).unwrap();
    let t: image::ImageBuffer<image::Rgba<u8>, &[u8]> = image::ImageBuffer::from_raw(
        top_width,
        top_height,
        top.as_slice(),
    ).unwrap();
    image::imageops::replace(&mut b, &t, i64::from(x), i64::from(y));
    *bottom = b.into_raw();
}

} // verus!
