//! Bringing an image to its drawn size.

use vstd::prelude::*;
use crate::grid::PixelGrid;
use crate::scale::{scale, scale_spec, MAX_BOUNDARY};

verus! {

/// Resamples raw RGBA bytes to a new size with `image::imageops::resize` and
/// its `Lanczos3` filter. The bytes go in through `ImageBuffer::from_raw` and
/// the result comes out through `ImageBuffer::into_raw`.
///
/// Taken on trust from that function's source:
/// - it returns a buffer of exactly the size asked for;
/// - where the size asked for is the size given, it copies the image and
///   samples nothing;
/// - where the image has no pixel, the buffer it returns holds zeros;
/// - for a result that is not empty, it fails only where a buffer that it
///   allocates cannot be held by a vector: the result, or the buffer of
///   floats between its two passes, which is as wide as the image and as
///   high as the result.
///
/// Nothing is said of the values that the filter computes. It works in
/// floating point, with a sine whose precision the standard library leaves
/// open, so the same image need not give the same bytes everywhere.
#[verifier::external_body]
fn resize_lanczos3(
    width: u32,
    height: u32,
    data: &Vec<u8>,
    new_width: u32,
    new_height: u32,
) -> (resampled: Vec<u8>)
    requires
        data@.len() == 4 * width * height,
        new_width > 0,
        new_height > 0,
        16 * width * new_height <= isize::MAX,
        4 * new_width * new_height <= isize::MAX,
    ensures
        resampled@.len() == 4 * new_width * new_height,
        new_width == width && new_height == height ==> resampled@ == data@,
        width == 0 || height == 0 ==> forall|at: int|
            0 <= at < resampled@.len() ==> resampled@[at] == 0,
{
    let source = image::ImageBuffer::<image::Rgba<u8>, &[u8]>::from_raw(width, height, data)
        .unwrap();
    let filter = image::imageops::FilterType::Lanczos3;
    image::imageops::resize(&source, new_width, new_height, filter).into_raw()
}

/// Brings an image to its drawn size, which `scale` gives: each dimension
/// clamped on its own, the aspect ratio given up where one of them was out
/// of bounds.
///
/// An image that already has its drawn size comes back as it is, and one
/// without a pixel comes back with every byte zero. Of any other image the
/// size of the result is stated, not its pixels: they are what the filter
/// makes of the image.
///
/// The resampling works through a buffer of floats as wide as the image and
/// as high as the result, which a vector must be able to hold.
pub fn open_scale_image(image: &PixelGrid) -> (scaled: PixelGrid)
    requires
        16 * image@.width * MAX_BOUNDARY <= isize::MAX,
    ensures
        scaled@.wf(),
        (scaled@.width, scaled@.height) == scale_spec((image@.width, image@.height)),
        scale_spec((image@.width, image@.height)) == (image@.width, image@.height) ==> scaled@
            == image@,
        image@.width == 0 || image@.height == 0 ==> forall|at: int|
            0 <= at < scaled@.data.len() ==> scaled@.data[at] == 0,
{
    let (width, height) = image.dimensions();
    let (new_width, new_height) = scale((width, height));
    assert(16 * width * new_height <= 16 * width * MAX_BOUNDARY) by (nonlinear_arith)
        requires
            new_height <= MAX_BOUNDARY,
    ;
    assert(4 * new_width * new_height <= 40000) by (nonlinear_arith)
        requires
            new_width <= 100,
            new_height <= 100,
    ;
    let data = resize_lanczos3(width, height, image.as_raw(), new_width, new_height);
    PixelGrid::from_raw(new_width, new_height, data).unwrap()
}

} // verus!
