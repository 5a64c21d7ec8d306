//! The whole conversion: decode every frame, convert each in order, and
//! report a decode failure as one error for the whole request.

use crate::frame::{
    fits, frame_fits, frame_luma, frame_text, frame_to_ascii, scaled_height, DecodedFrame,
};
use crate::glyph::{
    glyph_index_of, glyph_of, grid_text, is_text_grid, lemma_glyph_index_monotonic, lemma_grid_text_cells,
    lemma_grid_text_shape, ramp,
};
use crate::imaging::{decode_gif, frame_views, gif_frames, has_gif_signature};
use vstd::prelude::*;

verus! {

/// Why a conversion produced no frames.
#[derive(Debug, Clone, PartialEq, Eq)]
pub enum ConvertError {
    /// The bytes are not a GIF the decoder can read; holds the decoder's
    /// description of the cause.
    Decode(String),
    /// A frame is beyond what the resize can handle: one output pixel would
    /// average a block of source pixels too large for the resize's `u32`
    /// sums (a source far wider or taller than the output, by a factor of
    /// several thousand), or the resized buffer would be larger than memory
    /// can address.
    FrameTooLarge,
}

impl ConvertError {
    /// A human-readable description of the error.
    pub fn message(&self) -> (r: String)
        ensures
            self is Decode ==> r@ == self->Decode_0@,
            self is FrameTooLarge ==> r@ == "frame too large to resize"@,
    {
        proof {
            reveal_strlit("frame too large to resize");
        }
        match self {
            ConvertError::Decode(cause) => cause.clone(),
            ConvertError::FrameTooLarge => String::from_str("frame too large to resize"),
        }
    }
}

/// The characters of each string.
pub open spec fn texts(v: Seq<String>) -> Seq<Seq<char>> {
    v.map_values(|s: String| s@)
}

/// Every frame can be drawn `scale_width` columns wide.
pub open spec fn frames_fit(frames: Seq<(u32, u32, Seq<u8>)>, scale_width: u32) -> bool {
    forall|i: int| 0 <= i < frames.len() ==> #[trigger] frame_fits(scale_width, frames[i])
}

/// The text of each frame, in frame order.
pub open spec fn ascii_frames(frames: Seq<(u32, u32, Seq<u8>)>, scale_width: u32) -> Seq<
    Seq<char>,
> {
    frames.map_values(|f: (u32, u32, Seq<u8>)| frame_text(scale_width, f))
}

/// What converting a list of frames returns: the text of every frame in
/// order when all of them fit, and `FrameTooLarge` otherwise.
pub open spec fn frames_convert_to(
    frames: Seq<(u32, u32, Seq<u8>)>,
    scale_width: u32,
    r: Result<Vec<String>, ConvertError>,
) -> bool {
    &&& r is Ok <==> frames_fit(frames, scale_width)
    &&& r is Ok ==> texts(r->Ok_0@) == ascii_frames(frames, scale_width)
    &&& r is Err ==> r->Err_0 is FrameTooLarge
}

/// What converting the bytes `data` returns: a `Decode` error when they do
/// not decode, and otherwise what converting the decoded frames returns.
pub open spec fn converts_to(
    data: Seq<u8>,
    scale_width: u32,
    r: Result<Vec<String>, ConvertError>,
) -> bool {
    match gif_frames(data) {
        None => r is Err && r->Err_0 is Decode,
        Some(frames) => frames_convert_to(frames, scale_width, r),
    }
}

/// Converts decoded frames to text `scale_width` columns wide, one string per
/// frame in the same order.
pub fn frames_to_ascii(frames: &Vec<DecodedFrame>, scale_width: u32) -> (r: Result<
    Vec<String>,
    ConvertError,
>)
    requires
        forall|i: int| 0 <= i < frames@.len() ==> #[trigger] frames@[i].is_complete(),
    ensures
        frames_convert_to(frame_views(frames@), scale_width, r),
{
    let ghost views = frame_views(frames@);
    let mut out: Vec<String> = Vec::new();
    let mut i: usize = 0;
    while i < frames.len()
        invariant
            i <= frames@.len(),
            views == frame_views(frames@),
            forall|j: int| 0 <= j < frames@.len() ==> #[trigger] frames@[j].is_complete(),
            forall|j: int| 0 <= j < i ==> #[trigger] frame_fits(scale_width, views[j]),
            texts(out@) == ascii_frames(views.take(i as int), scale_width),
        decreases frames@.len() - i,
    {
        assert(views[i as int] == frames@[i as int]@);
        if !fits(&frames[i], scale_width) {
            return Err(ConvertError::FrameTooLarge);
        }
        let text = frame_to_ascii(&frames[i], scale_width);
        let ghost before = out@;
        out.push(text);
        proof {
            assert(views.take(i + 1) =~= views.take(i as int).push(views[i as int]));
            assert(out@ == before.push(text));
            assert(texts(out@) =~= texts(before).push(text@));
            assert(texts(out@) =~= ascii_frames(views.take(i + 1), scale_width));
        }
        i = i + 1;
    }
    proof {
        assert(views.take(i as int) =~= views);
    }
    Ok(out)
}

/// Converts the GIF bytes `data` to text frames `scale_width` columns wide:
/// one string per animation frame, in frame order. Fails as a whole, with no
/// frames, when the bytes do not decode.
pub fn convert_gif_to_ascii(data: &[u8], scale_width: u32) -> (r: Result<Vec<String>, ConvertError>)
    ensures
        converts_to(data@, scale_width, r),
        !has_gif_signature(data@) ==> r is Err && r->Err_0 is Decode,
{
    match decode_gif(data) {
        Err(e) => Err(ConvertError::Decode(e.to_string())),
        Ok(frames) => frames_to_ascii(&frames, scale_width),
    }
}

/// Every decoded frame gives exactly one text: a conversion that succeeds
/// returns as many strings as the input has frames.
pub proof fn lemma_frame_count(data: Seq<u8>, scale_width: u32, r: Result<Vec<String>, ConvertError>)
    requires
        gif_frames(data) is Some,
        frames_fit(gif_frames(data)->Some_0, scale_width),
        converts_to(data, scale_width, r),
    ensures
        r is Ok,
        r->Ok_0@.len() == gif_frames(data)->Some_0.len(),
{
    assert(texts(r->Ok_0@).len() == r->Ok_0@.len());
}

/// Frames keep their order: text `i` of a successful conversion is the
/// text of decoded frame `i`.
pub proof fn lemma_frame_order(
    data: Seq<u8>,
    scale_width: u32,
    r: Result<Vec<String>, ConvertError>,
    i: int,
)
    requires
        gif_frames(data) is Some,
        frames_fit(gif_frames(data)->Some_0, scale_width),
        converts_to(data, scale_width, r),
        0 <= i < gif_frames(data)->Some_0.len(),
    ensures
        r is Ok,
        r->Ok_0@[i]@ == frame_text(scale_width, gif_frames(data)->Some_0[i]),
{
    lemma_frame_count(data, scale_width, r);
    assert(texts(r->Ok_0@)[i] == r->Ok_0@[i]@);
}

/// Converting the same bytes at the same width twice gives the same
/// outcome: both succeed with identical texts, or both fail with the same
/// kind of error.
pub proof fn lemma_convert_deterministic(
    data: Seq<u8>,
    scale_width: u32,
    r1: Result<Vec<String>, ConvertError>,
    r2: Result<Vec<String>, ConvertError>,
)
    requires
        converts_to(data, scale_width, r1),
        converts_to(data, scale_width, r2),
    ensures
        r1 is Ok <==> r2 is Ok,
        r1 is Ok ==> texts(r1->Ok_0@) == texts(r2->Ok_0@),
        r1 is Err ==> (r1->Err_0 is Decode <==> r2->Err_0 is Decode),
{
}

/// A GIF of one frame converts, at a positive width, to one text of exactly
/// `scaled_height` lines, each `scale_width` characters long (no lines and
/// the empty text when that height is zero).
pub proof fn lemma_single_frame_shape(
    data: Seq<u8>,
    scale_width: u32,
    r: Result<Vec<String>, ConvertError>,
)
    requires
        gif_frames(data) is Some,
        gif_frames(data)->Some_0.len() == 1,
        scale_width > 0,
        frame_fits(scale_width, gif_frames(data)->Some_0[0]),
        converts_to(data, scale_width, r),
    ensures
        r is Ok,
        r->Ok_0@.len() == 1,
        is_text_grid(
            r->Ok_0@[0]@,
            scale_width as nat,
            scaled_height(
                scale_width,
                gif_frames(data)->Some_0[0].0,
                gif_frames(data)->Some_0[0].1,
            ) as nat,
        ),
{
    let frames = gif_frames(data)->Some_0;
    let f = frames[0];
    assert(frames_fit(frames, scale_width));
    lemma_frame_order(data, scale_width, r, 0);
    lemma_frame_count(data, scale_width, r);
    let h = scaled_height(scale_width, f.0, f.1);
    lemma_grid_text_shape(frame_luma(scale_width, f), scale_width as nat, h as nat);
}

/// Cells of a converted frame follow its luminance in order: the cell at
/// line `y1`, column `x1` and the cell at line `y2`, column `x2` draw their
/// luminance samples with ramp glyphs, a darker sample never with a sparser
/// glyph than a brighter one, luminance 0 with the densest glyph and 255
/// with the sparsest.
pub proof fn lemma_frame_cells_monotonic(
    data: Seq<u8>,
    scale_width: u32,
    r: Result<Vec<String>, ConvertError>,
    i: int,
    y1: int,
    x1: int,
    y2: int,
    x2: int,
)
    requires
        gif_frames(data) is Some,
        frames_fit(gif_frames(data)->Some_0, scale_width),
        converts_to(data, scale_width, r),
        0 <= i < gif_frames(data)->Some_0.len(),
        0 <= y1 < scaled_height(
            scale_width,
            gif_frames(data)->Some_0[i].0,
            gif_frames(data)->Some_0[i].1,
        ),
        0 <= y2 < scaled_height(
            scale_width,
            gif_frames(data)->Some_0[i].0,
            gif_frames(data)->Some_0[i].1,
        ),
        0 <= x1 < scale_width,
        0 <= x2 < scale_width,
    ({
        let luma = frame_luma(scale_width, gif_frames(data)->Some_0[i]);
        luma[y1 * scale_width + x1] <= luma[y2 * scale_width + x2]
    }),
    ensures
        r is Ok,
        ({
            let luma = frame_luma(scale_width, gif_frames(data)->Some_0[i]);
            let t = r->Ok_0@[i]@;
            let a = luma[y1 * scale_width + x1];
            let b = luma[y2 * scale_width + x2];
            &&& t[y1 * (scale_width + 1) + x1] == ramp()[glyph_index_of(a)]
            &&& t[y2 * (scale_width + 1) + x2] == ramp()[glyph_index_of(b)]
            &&& glyph_index_of(a) <= glyph_index_of(b)
            &&& a == 0 ==> t[y1 * (scale_width + 1) + x1] == '@'
            &&& b == 255 ==> t[y2 * (scale_width + 1) + x2] == ' '
        }),
{
    let f = gif_frames(data)->Some_0[i];
    let luma = frame_luma(scale_width, f);
    let h = scaled_height(scale_width, f.0, f.1);
    lemma_frame_order(data, scale_width, r, i);
    lemma_grid_text_cells(luma, scale_width as nat, h as nat);
    let a = luma[y1 * scale_width + x1];
    let b = luma[y2 * scale_width + x2];
    let t = r->Ok_0@[i]@;
    assert(t == grid_text(luma, scale_width as nat, h as nat));
    let w = scale_width as nat;
    assert(grid_text(luma, w, h as nat)[y1 * (w + 1) + x1] == glyph_of(luma[y1 * w + x1]));
    assert(grid_text(luma, w, h as nat)[y2 * (w + 1) + x2] == glyph_of(luma[y2 * w + x2]));
    if a < b {
        lemma_glyph_index_monotonic(a, b);
    }
    lemma_glyph_index_monotonic(0, 255);
    assert(ramp()[0] == '@');
    assert(ramp()[9] == ' ');
}

/// A frame drawn at width zero, or whose `scaled_height` is zero, becomes
/// the empty text, and the conversion still succeeds.
pub proof fn lemma_zero_height_frame_is_empty(
    data: Seq<u8>,
    scale_width: u32,
    r: Result<Vec<String>, ConvertError>,
    i: int,
)
    requires
        gif_frames(data) is Some,
        frames_fit(gif_frames(data)->Some_0, scale_width),
        converts_to(data, scale_width, r),
        0 <= i < gif_frames(data)->Some_0.len(),
        scale_width == 0 || scaled_height(
            scale_width,
            gif_frames(data)->Some_0[i].0,
            gif_frames(data)->Some_0[i].1,
        ) == 0,
    ensures
        r is Ok,
        r->Ok_0@[i]@ == Seq::<char>::empty(),
{
    lemma_frame_order(data, scale_width, r, i);
}

} // verus!
