use ascii::glyph::map_ascii;
use ascii::layout::vec_to_ascii_image;
use ascii::luminance::luminance;
use ascii::render::render;
use ascii::render::RenderError;
use ascii::resize::scale;

#[test]
fn resize_identity() {
    let buf: Vec<u8> = vec![1, 2, 3, 4, 5, 6, 7, 8, 9, 10, 11, 12];
    assert_eq!(scale(&buf, 2, 2, 2, 2), buf);
}

#[test]
fn resize_output_shape() {
    let buf: Vec<u8> = vec![1, 2, 3, 4, 5, 6, 7, 8, 9, 10, 11, 12];
    assert_eq!(scale(&buf, 3, 5, 2, 2).len(), 45);
    assert_eq!(scale(&buf, 0, 7, 2, 2).len(), 0);
    assert_eq!(scale(&buf, 7, 0, 2, 2).len(), 0);
    assert_eq!(scale(&buf, 0, 0, 2, 2).len(), 0);
}

#[test]
fn resize_downsample_picks_nearest() {
    let buf: Vec<u8> = vec![10, 20, 30, 40, 50, 60];
    assert_eq!(scale(&buf, 1, 1, 2, 1), vec![10, 20, 30]);
}

#[test]
fn resize_upsample_repeats_pixel() {
    let buf: Vec<u8> = vec![7, 8, 9];
    assert_eq!(scale(&buf, 2, 2, 1, 1), vec![7, 8, 9, 7, 8, 9, 7, 8, 9, 7, 8, 9]);
}

#[test]
fn luminance_boundaries() {
    assert_eq!(luminance(&vec![0, 0, 0]), vec![0]);
    assert_eq!(luminance(&vec![255, 255, 255]), vec![255]);
}

#[test]
fn luminance_exact_values() {
    // 0.299 * 100 + 0.587 * 50 + 0.114 * 200 = 82.05, rounds to 82
    assert_eq!(luminance(&vec![100, 50, 200]), vec![82]);
    // 0.587 alone rounds up to 1
    assert_eq!(luminance(&vec![0, 1, 0]), vec![1]);
    // 0.299 alone rounds down to 0
    assert_eq!(luminance(&vec![1, 0, 0]), vec![0]);
}

#[test]
fn luminance_monotonic_in_a_channel() {
    let low = luminance(&vec![10, 10, 10]);
    let high = luminance(&vec![200, 10, 10]);
    assert!(low[0] <= high[0]);
    assert_eq!(low, vec![10]);
    assert_eq!(high, vec![67]);
}

#[test]
fn luminance_drops_partial_triplet() {
    assert_eq!(luminance(&vec![10, 20, 30, 40]), vec![18]);
    assert_eq!(luminance(&vec![10, 20]), Vec::<u8>::new());
    assert_eq!(luminance(&Vec::new()), Vec::<u8>::new());
}

#[test]
fn glyph_boundaries() {
    assert_eq!(map_ascii(&vec![0]), vec![' ']);
    assert_eq!(map_ascii(&vec![255]), vec!['#']);
}

#[test]
fn glyph_monotonic() {
    let dim = map_ascii(&vec![100]);
    let bright = map_ascii(&vec![200]);
    assert_eq!(dim, vec!['-']);
    assert_eq!(bright, vec!['!']);
}

#[test]
fn glyph_midpoint() {
    // 128 / 255 * 9 = 4.517..., rounds to ramp index 5
    assert_eq!(map_ascii(&vec![128]), vec!['+']);
}

#[test]
fn layout_shape() {
    let glyphs: Vec<char> = vec!['a', 'b', 'c', 'd', 'e', 'f'];
    let text = vec_to_ascii_image(&glyphs, 3, 2);
    assert_eq!(text, "abc\ndef\n".to_string());
    assert_eq!(text.chars().filter(|&c| c == '\n').count(), 2);
    for row in text.lines() {
        assert_eq!(row.chars().count(), 3);
    }
}

#[test]
fn layout_empty_rows() {
    assert_eq!(vec_to_ascii_image(&Vec::new(), 0, 0), String::new());
    assert_eq!(vec_to_ascii_image(&Vec::new(), 0, 2), "\n\n".to_string());
}

#[test]
fn end_to_end_checkerboard() {
    let pixels: Vec<u8> = vec![0, 0, 0, 255, 255, 255, 255, 255, 255, 0, 0, 0];
    let text = render(&pixels, 2, 2, 2, 2).unwrap();
    assert_eq!(text, " #\n# \n".to_string());
}

#[test]
fn render_zero_target_is_empty() {
    let pixels: Vec<u8> = vec![0, 0, 0, 255, 255, 255, 255, 255, 255, 0, 0, 0];
    assert_eq!(render(&pixels, 2, 2, 0, 0).unwrap(), String::new());
}

#[test]
fn render_rejects_degenerate_source() {
    assert_eq!(render(&Vec::new(), 0, 5, 3, 3), Err(RenderError::DegenerateInput));
    assert_eq!(render(&Vec::new(), 4, 0, 3, 3), Err(RenderError::DegenerateInput));
}
