use gif_ascii::{fits, frame_to_ascii, glyph_index, luma_to_ascii, scale_height, DecodedFrame};

#[test]
fn darkest_and_brightest_take_the_ramp_ends() {
    assert_eq!(glyph_index(0), 0);
    assert_eq!(glyph_index(255), 9);
    assert_eq!(glyph_index(128), 4);
    assert_eq!(glyph_index(28), 0);
    assert_eq!(glyph_index(29), 1);
}

#[test]
fn glyph_index_never_decreases_nor_skips() {
    for b in 0..255u8 {
        let here = glyph_index(b);
        let next = glyph_index(b + 1);
        assert!(here <= next);
        assert!(next <= here + 1);
    }
}

#[test]
fn luma_grid_draws_rows_in_raster_order() {
    let luma = vec![0, 255, 128, 29, 60, 200];
    assert_eq!(luma_to_ascii(&luma, 3, 2), "@ +\n%#:");
    assert_eq!(luma_to_ascii(&luma, 2, 3), "@ \n+%\n#:");
}

#[test]
fn every_glyph_of_the_ramp_is_reachable() {
    let luma: Vec<u8> = vec![0, 29, 57, 85, 114, 142, 170, 199, 227, 255];
    assert_eq!(luma_to_ascii(&luma, 10, 1), "@%#*+=-:. ");
}

#[test]
fn empty_grids_draw_as_empty_text() {
    assert_eq!(luma_to_ascii(&vec![], 0, 5), "");
    assert_eq!(luma_to_ascii(&vec![], 5, 0), "");
}

#[test]
fn scale_height_follows_the_halved_aspect() {
    assert_eq!(scale_height(4, 10, 10), 2);
    assert_eq!(scale_height(8, 20, 10), 2);
    assert_eq!(scale_height(4, 10, 2), 0);
    assert_eq!(scale_height(7, 3, 9), 10);
    assert_eq!(scale_height(10, 0, 5), 0);
    assert_eq!(scale_height(u32::MAX, 1, u32::MAX), 9223372032559808512);
}

#[test]
fn fits_bounds_the_resized_buffer() {
    let frame = DecodedFrame { width: 1, height: 1, rgba: vec![0, 0, 0, 255] };
    assert!(fits(&frame, 80));
    assert!(!fits(&frame, u32::MAX));
    let large = DecodedFrame { width: 4097, height: 4096, rgba: Vec::new() };
    assert!(fits(&large, 1));
    assert!(fits(&large, 80));
    let narrow_output = DecodedFrame { width: 3000, height: 6000, rgba: Vec::new() };
    assert!(!fits(&narrow_output, 1));
    assert!(fits(&narrow_output, 2));
}

#[test]
fn frame_is_resized_before_drawing() {
    let white = [255u8, 255, 255, 255];
    let black = [0u8, 0, 0, 255];
    let mut rgba = Vec::new();
    for y in 0..4 {
        for _ in 0..8 {
            rgba.extend_from_slice(if y < 2 { &white } else { &black });
        }
    }
    let frame = DecodedFrame { width: 8, height: 4, rgba };
    assert_eq!(frame_to_ascii(&frame, 4), "++++");
    assert_eq!(frame_to_ascii(&frame, 8), "        \n@@@@@@@@");
}
