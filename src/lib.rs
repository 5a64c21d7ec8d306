//! Turns the frames of an animated GIF into text: each frame is resized to a
//! chosen column count, reduced to luminance, and every sample is drawn with
//! one character of a fixed ramp running from dense to sparse.

pub mod glyph;
pub mod frame;
pub mod imaging;
pub mod convert;

pub use convert::{convert_gif_to_ascii, frames_to_ascii, ConvertError};
pub use frame::{fits, frame_to_ascii, scale_height, DecodedFrame};
pub use glyph::{glyph_index, luma_to_ascii};
