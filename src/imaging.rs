//! The calls into the `image` crate: GIF decoding, exact-size thumbnail
//! resizing, and luminance conversion. Each result is a function of the
//! arguments alone and is given a name here; the few facts stated beside
//! each name are taken from the crate's source.

use crate::frame::DecodedFrame;
use image::codecs::gif::GifDecoder;
use image::AnimationDecoder;
use std::io::Cursor;
use vstd::prelude::*;

verus! {

#[verifier::external_type_specification]
#[verifier::external_body]
pub struct ExImageError(image::ImageError);

/// The frames that the GIF decoder yields for `data`, in order, each as
/// (width, height, RGBA samples in raster order); `None` when decoding fails.
pub uninterp spec fn gif_frames(data: Seq<u8>) -> Option<Seq<(u32, u32, Seq<u8>)>>;

/// The RGBA samples of a `width` × `height` RGBA image resized to exactly
/// `new_width` × `new_height`.
pub uninterp spec fn thumbnail_rgba(
    rgba: Seq<u8>,
    width: u32,
    height: u32,
    new_width: u32,
    new_height: u32,
) -> Seq<u8>;

/// The luminance samples of a `width` × `height` RGBA image.
pub uninterp spec fn luma_of_rgba(rgba: Seq<u8>, width: u32, height: u32) -> Seq<u8>;

/// `data` begins with one of the two GIF signatures, `GIF87a` or `GIF89a`.
pub open spec fn has_gif_signature(data: Seq<u8>) -> bool {
    data.len() >= 6 && (data.take(6) == seq![71u8, 73, 70, 56, 55, 97] || data.take(6) == seq![
        71u8,
        73,
        70,
        56,
        57,
        97,
    ])
}

/// The views of a list of decoded frames.
pub open spec fn frame_views(frames: Seq<DecodedFrame>) -> Seq<(u32, u32, Seq<u8>)> {
    frames.map_values(|f: DecodedFrame| f@)
}

/// Relies on `GifDecoder::new`, `AnimationDecoder::into_frames` and
/// `Frames::collect_frames` of `image`: decoding either fails or yields every
/// frame, composited to the full canvas, as an RGBA buffer that holds at
/// least width × height pixels (`ImageBuffer::from_raw` refuses less). The
/// gif crate's header state fails on input that ends before six bytes or
/// whose first six bytes are no GIF signature.
#[verifier::external_body]
pub(crate) fn decode_gif(data: &[u8]) -> (r: Result<Vec<DecodedFrame>, image::ImageError>)
    ensures
        r is Err <==> gif_frames(data@) is None,
        !has_gif_signature(data@) ==> r is Err,
        r is Ok ==> gif_frames(data@) == Some(frame_views(r->Ok_0@)),
        r is Ok ==> forall|i: int|
            0 <= i < r->Ok_0@.len() ==> #[trigger] r->Ok_0@[i].is_complete(),
{
    let decoder = GifDecoder::new(Cursor::new(data))?;
    let frames = decoder.into_frames().collect_frames()?;
    let mut out = Vec::new();
    for frame in frames {
        let buffer = frame.into_buffer();
        out.push(DecodedFrame { width: buffer.width(), height: buffer.height(), rgba: buffer.into_raw() });
    }
    Ok(out)
}

/// An upper bound on how many source pixels along one axis of length `len`
/// the resize to `new_len` averages into one output pixel. The resize finds
/// a block's edges as the ceilings of `f32` multiples of `len / new_len`;
/// the exact span is below `len / new_len + 2`, and `f32` rounding, at most
/// a relative `2^-24` per operation on values below `2 * len`, adds less than
/// `len / 2^22 + 1`.
pub open spec fn thumbnail_block_span(len: u32, new_len: u32) -> int {
    len as int / new_len as int + len as int / 0x40_0000 + 3
}

/// Relies on `DynamicImage::thumbnail_exact` of `image` (for RGBA8 images,
/// `imageops::thumbnail`): the result is a fresh `new_width` × `new_height`
/// buffer from `ImageBuffer::new`, which panics when its byte length
/// overflows, so that length is bounded here. Each output pixel averages a
/// block of source pixels whose per-channel sums, plus half the block's
/// pixel count for rounding, are kept in a `u32`, so the block is bounded to
/// keep `256` per pixel within `u32::MAX`.
#[verifier::external_body]
pub(crate) fn thumbnail_exact(
    rgba: &[u8],
    width: u32,
    height: u32,
    new_width: u32,
    new_height: u32,
) -> (r: Vec<u8>)
    requires
        rgba@.len() >= width * height * 4,
        new_width > 0,
        new_height > 0,
        thumbnail_block_span(width, new_width) * thumbnail_block_span(height, new_height) * 256
            <= u32::MAX,
        new_width * new_height * 4 <= isize::MAX,
    ensures
        r@ == thumbnail_rgba(rgba@, width, height, new_width, new_height),
        r@.len() == new_width * new_height * 4,
{
    let image = image::RgbaImage::from_raw(width, height, rgba.to_vec()).expect("buffer too short");
    let resized = image::DynamicImage::ImageRgba8(image).thumbnail_exact(new_width, new_height);
    resized.into_rgba8().into_raw()
}

/// Relies on `DynamicImage::to_luma8` of `image`: one luminance byte for
/// each of the `width` × `height` pixels.
#[verifier::external_body]
pub(crate) fn to_luma8(rgba: Vec<u8>, width: u32, height: u32) -> (r: Vec<u8>)
    requires
        rgba@.len() >= width * height * 4,
    ensures
        r@ == luma_of_rgba(rgba@, width, height),
        r@.len() == width * height,
{
    let image = image::RgbaImage::from_raw(width, height, rgba).expect("buffer too short");
    image::DynamicImage::ImageRgba8(image).to_luma8().into_raw()
}

} // verus!
