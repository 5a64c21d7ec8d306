//! One decoded frame and its conversion to text: the aspect-corrected
//! target height, the resize, the luminance reduction and the glyph mapping.

use crate::glyph::{grid_text, luma_to_ascii};
use crate::imaging::{
    luma_of_rgba, thumbnail_block_span, thumbnail_exact, thumbnail_rgba, to_luma8,
};
use vstd::prelude::*;

verus! {

/// One animation frame as the decoder hands it over: `width` × `height`
/// pixels, four bytes (R, G, B, A) each, in raster order.
pub struct DecodedFrame {
    pub width: u32,
    pub height: u32,
    pub rgba: Vec<u8>,
}

impl View for DecodedFrame {
    type V = (u32, u32, Seq<u8>);

    open spec fn view(&self) -> (u32, u32, Seq<u8>) {
        (self.width, self.height, self.rgba@)
    }
}

impl DecodedFrame {
    /// The buffer holds every pixel of the frame.
    pub open spec fn is_complete(&self) -> bool {
        frame_is_complete(self@)
    }
}

/// A frame view whose buffer holds all of its width × height pixels.
pub open spec fn frame_is_complete(f: (u32, u32, Seq<u8>)) -> bool {
    f.2.len() >= f.0 * f.1 * 4
}

/// Output rows for a frame of `width` × `height` pixels drawn `scale_width`
/// columns wide: `floor(scale_width * (height / width) * 0.5)`, the half
/// making up for character cells being about twice as tall as wide. A frame
/// with no columns gets no rows.
pub open spec fn scaled_height(scale_width: u32, width: u32, height: u32) -> int {
    if width == 0 {
        0
    } else {
        (scale_width * height) as int / (2 * width) as int
    }
}

/// The frame is within what the resize can handle: the resized height is a
/// `u32`, the resized RGBA buffer's byte length does not exceed
/// `isize::MAX`, and, when a resize is made at all, the block of source
/// pixels averaged into one output pixel is small enough for the resize's
/// `u32` sums.
pub open spec fn frame_fits(scale_width: u32, f: (u32, u32, Seq<u8>)) -> bool {
    let h = scaled_height(scale_width, f.0, f.1);
    &&& h <= u32::MAX
    &&& scale_width * h * 4 <= isize::MAX
    &&& (scale_width != 0 && h != 0 ==> thumbnail_block_span(f.0, scale_width)
        * thumbnail_block_span(f.1, h as u32) * 256 <= u32::MAX)
}

/// The luminance grid of a frame resized to `scale_width` × `scaled_height`,
/// in raster order.
pub open spec fn frame_luma(scale_width: u32, f: (u32, u32, Seq<u8>)) -> Seq<u8> {
    let h = scaled_height(scale_width, f.0, f.1);
    luma_of_rgba(thumbnail_rgba(f.2, f.0, f.1, scale_width, h as u32), scale_width, h as u32)
}

/// The text of a frame drawn `scale_width` columns wide: the frame resized
/// to `scale_width` × `scaled_height`, reduced to luminance, and drawn as a
/// grid of glyphs; empty when either dimension is zero.
pub open spec fn frame_text(scale_width: u32, f: (u32, u32, Seq<u8>)) -> Seq<char> {
    grid_text(
        frame_luma(scale_width, f),
        scale_width as nat,
        scaled_height(scale_width, f.0, f.1) as nat,
    )
}

/// The number of text rows for a frame of `width` × `height` pixels drawn
/// `scale_width` columns wide.
pub fn scale_height(scale_width: u32, width: u32, height: u32) -> (r: u64)
    ensures
        r == scaled_height(scale_width, width, height),
{
    if width == 0 {
        return 0;
    }
    proof {
        assert(scale_width * height <= u32::MAX * u32::MAX) by (nonlinear_arith)
            requires
                scale_width <= u32::MAX,
                height <= u32::MAX,
        ;
    }
    (scale_width as u64 * height as u64) / (2 * width as u64)
}

/// The bound on a resize block's span along one axis.
fn block_span(len: u32, new_len: u32) -> (r: u64)
    requires
        new_len > 0,
    ensures
        r == thumbnail_block_span(len, new_len),
{
    (len / new_len) as u64 + (len / 0x40_0000) as u64 + 3
}

/// Whether `frame` can be drawn `scale_width` columns wide within the
/// limits of the resize.
pub fn fits(frame: &DecodedFrame, scale_width: u32) -> (r: bool)
    ensures
        r == frame_fits(scale_width, frame@),
{
    let h = scale_height(scale_width, frame.width, frame.height);
    if h > u32::MAX as u64 {
        return false;
    }
    proof {
        assert(scale_width * h <= u32::MAX * u32::MAX) by (nonlinear_arith)
            requires
                scale_width <= u32::MAX,
                h <= u32::MAX,
        ;
    }
    if scale_width as u64 * h > (isize::MAX as u64) / 4 {
        return false;
    }
    if scale_width == 0 || h == 0 {
        return true;
    }
    let limit: u64 = (u32::MAX as u64) / 256;
    let across = block_span(frame.width, scale_width);
    let down = block_span(frame.height, h as u32);
    if across > limit || down > limit {
        proof {
            assert(across * down > limit) by (nonlinear_arith)
                requires
                    across >= 3,
                    down >= 3,
                    across > limit || down > limit,
            ;
        }
        return false;
    }
    proof {
        assert(across * down <= limit * limit) by (nonlinear_arith)
            requires
                across <= limit,
                down <= limit,
        ;
    }
    across * down <= limit
}

/// Converts one frame to text `scale_width` columns wide.
pub fn frame_to_ascii(frame: &DecodedFrame, scale_width: u32) -> (r: String)
    requires
        frame.is_complete(),
        frame_fits(scale_width, frame@),
    ensures
        r@ == frame_text(scale_width, frame@),
{
    let h = scale_height(scale_width, frame.width, frame.height);
    if scale_width == 0 || h == 0 {
        return String::new();
    }
    let rows = h as u32;
    let resized = thumbnail_exact(frame.rgba.as_slice(), frame.width, frame.height, scale_width, rows);
    let luma = to_luma8(resized, scale_width, rows);
    luma_to_ascii(&luma, scale_width, rows)
}

} // verus!
