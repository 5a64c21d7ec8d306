use gif_ascii::{convert_gif_to_ascii, frames_to_ascii, ConvertError, DecodedFrame};
use image::codecs::gif::GifEncoder;
use image::{Frame, Rgba, RgbaImage};

fn gif_bytes(frames: &[(u32, u32, [u8; 4])]) -> Vec<u8> {
    let mut bytes = Vec::new();
    {
        let mut encoder = GifEncoder::new(&mut bytes);
        for &(width, height, pixel) in frames {
            let image = RgbaImage::from_pixel(width, height, Rgba(pixel));
            encoder.encode_frame(Frame::new(image)).unwrap();
        }
    }
    bytes
}

const WHITE: [u8; 4] = [255, 255, 255, 255];
const BLACK: [u8; 4] = [0, 0, 0, 255];
const GRAY: [u8; 4] = [128, 128, 128, 255];

#[test]
fn two_white_frames_give_two_blank_grids() {
    let data = gif_bytes(&[(10, 10, WHITE), (10, 10, WHITE)]);
    let out = convert_gif_to_ascii(&data, 4).unwrap();
    assert_eq!(out, vec!["    \n    ".to_string(), "    \n    ".to_string()]);
}

#[test]
fn single_frame_has_scaled_height_lines_of_scale_width() {
    let data = gif_bytes(&[(20, 10, GRAY)]);
    let out = convert_gif_to_ascii(&data, 8).unwrap();
    assert_eq!(out.len(), 1);
    let lines: Vec<&str> = out[0].split('\n').collect();
    assert_eq!(lines.len(), 2);
    for line in lines {
        assert_eq!(line.chars().count(), 8);
    }
}

#[test]
fn tall_frame_gets_half_its_aspect_in_lines() {
    let data = gif_bytes(&[(6, 18, BLACK)]);
    let out = convert_gif_to_ascii(&data, 4).unwrap();
    assert_eq!(out, vec!["@@@@\n@@@@\n@@@@\n@@@@\n@@@@\n@@@@".to_string()]);
}

#[test]
fn one_output_per_decoded_frame() {
    let data = gif_bytes(&[(8, 8, WHITE), (8, 8, BLACK), (8, 8, GRAY)]);
    let out = convert_gif_to_ascii(&data, 4).unwrap();
    assert_eq!(out.len(), 3);
}

#[test]
fn frames_keep_their_order() {
    let data = gif_bytes(&[(10, 10, BLACK), (10, 10, WHITE), (10, 10, BLACK)]);
    let out = convert_gif_to_ascii(&data, 4).unwrap();
    assert_eq!(
        out,
        vec![
            "@@@@\n@@@@".to_string(),
            "    \n    ".to_string(),
            "@@@@\n@@@@".to_string(),
        ]
    );
}

#[test]
fn truncated_input_is_a_decode_error() {
    let data = gif_bytes(&[(10, 10, WHITE), (10, 10, BLACK)]);
    let truncated = &data[..data.len() / 2];
    assert!(matches!(convert_gif_to_ascii(truncated, 4), Err(ConvertError::Decode(_))));
}

#[test]
fn other_format_is_a_decode_error() {
    let png_header: [u8; 16] = [
        0x89, 0x50, 0x4e, 0x47, 0x0d, 0x0a, 0x1a, 0x0a, 0, 0, 0, 13, 0x49, 0x48, 0x44, 0x52,
    ];
    match convert_gif_to_ascii(&png_header, 4) {
        Err(ConvertError::Decode(cause)) => assert!(!cause.is_empty()),
        other => panic!("expected a decode error, got {:?}", other),
    }
}

#[test]
fn empty_input_is_a_decode_error() {
    assert!(matches!(convert_gif_to_ascii(&[], 4), Err(ConvertError::Decode(_))));
}

#[test]
fn converting_twice_gives_identical_output() {
    let data = gif_bytes(&[(12, 9, GRAY), (12, 9, WHITE)]);
    let first = convert_gif_to_ascii(&data, 6).unwrap();
    let second = convert_gif_to_ascii(&data, 6).unwrap();
    assert_eq!(first, second);
}

#[test]
fn zero_height_frame_is_empty_text() {
    let data = gif_bytes(&[(10, 2, BLACK)]);
    let out = convert_gif_to_ascii(&data, 4).unwrap();
    assert_eq!(out, vec![String::new()]);
}

#[test]
fn zero_scale_width_gives_empty_texts() {
    let data = gif_bytes(&[(10, 10, BLACK), (10, 10, WHITE)]);
    let out = convert_gif_to_ascii(&data, 0).unwrap();
    assert_eq!(out, vec![String::new(), String::new()]);
}

#[test]
fn oversized_output_is_refused() {
    let frames = vec![DecodedFrame { width: 1, height: 1, rgba: vec![0, 0, 0, 255] }];
    assert_eq!(frames_to_ascii(&frames, u32::MAX), Err(ConvertError::FrameTooLarge));
    assert_eq!(ConvertError::FrameTooLarge.message(), "frame too large to resize");
}

#[test]
fn decoded_frames_convert_in_order() {
    let frames = vec![
        DecodedFrame { width: 2, height: 2, rgba: [WHITE; 4].concat() },
        DecodedFrame { width: 2, height: 2, rgba: [BLACK; 4].concat() },
    ];
    let out = frames_to_ascii(&frames, 2).unwrap();
    assert_eq!(out, vec!["  ".to_string(), "@@".to_string()]);
}

#[test]
fn decode_error_message_is_its_cause() {
    let error = ConvertError::Decode("bad header".to_string());
    assert_eq!(error.message(), "bad header");
}

#[test]
fn large_source_converts() {
    let frames = vec![DecodedFrame { width: 4097, height: 4096, rgba: vec![255; 4097 * 4096 * 4] }];
    let out = frames_to_ascii(&frames, 80).unwrap();
    let blank_line = " ".repeat(80);
    assert_eq!(out, vec![vec![blank_line; 39].join("\n")]);
    assert_eq!(frames_to_ascii(&frames, 1), Ok(vec![String::new()]));
}

#[test]
fn block_too_large_to_average_is_refused() {
    let frames = vec![DecodedFrame { width: 3000, height: 6000, rgba: vec![255; 3000 * 6000 * 4] }];
    assert_eq!(frames_to_ascii(&frames, 1), Err(ConvertError::FrameTooLarge));
}

#[test]
fn unknown_signature_is_a_decode_error() {
    let mut data = gif_bytes(&[(10, 10, WHITE)]);
    data[4] = b'8';
    assert!(matches!(convert_gif_to_ascii(&data, 4), Err(ConvertError::Decode(_))));
    assert!(matches!(convert_gif_to_ascii(b"GIF89", 4), Err(ConvertError::Decode(_))));
}
