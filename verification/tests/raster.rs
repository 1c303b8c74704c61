use graph_renderer::raster::{clear_background, draw_circle, draw_rect, Color};

fn painted(pixels: &[u8], color: &Color) -> usize {
    pixels
        .chunks(4)
        .filter(|p| p[0] == color.r && p[1] == color.g && p[2] == color.b && p[3] == color.a)
        .count()
}

#[test]
fn it_works() {
    let color = Color::new(9, 8, 7, 6);
    let mut pixels = vec![0u8; 4 * 4 * 4];
    draw_rect(&mut pixels, 4, 4, 1, 1, 2, 2, &color);
    let result = painted(&pixels, &color);
    assert_eq!(result, 4);
}

#[test]
fn draw_rect_clips_to_the_canvas() {
    let color = Color::new(1, 2, 3, 4);
    let mut pixels = vec![0u8; 3 * 2 * 4];
    draw_rect(&mut pixels, 3, 2, 2, 1, 5, 5, &color);
    let mut expected = vec![0u8; 3 * 2 * 4];
    expected[20..24].copy_from_slice(&[1, 2, 3, 4]);
    assert_eq!(pixels, expected);
}

#[test]
fn clear_background_fills_every_pixel() {
    let color = Color::new(10, 20, 30, 40);
    let mut pixels = vec![0u8; 3 * 2 * 4];
    clear_background(&mut pixels, 3, 2, &color);
    assert_eq!(painted(&pixels, &color), 6);
}

#[test]
fn draw_circle_tests_the_distance() {
    let color = Color::new(5, 5, 5, 5);
    let mut pixels = vec![0u8; 5 * 5 * 4];
    draw_circle(&mut pixels, 5, 5, 2, 2, 2, &color);
    // Columns and rows 0..=3; the corner (0, 0) is at distance 8 > 4.
    assert_eq!(&pixels[0..4], &[0, 0, 0, 0]);
    // (2, 0) is at distance 4.
    assert_eq!(&pixels[8..12], &[5, 5, 5, 5]);
    // (4, 2) is at distance 4 but outside the box.
    assert_eq!(&pixels[(2 * 5 + 4) * 4..(2 * 5 + 4) * 4 + 4], &[0, 0, 0, 0]);
    assert_eq!(painted(&pixels, &color), 11);
}

#[test]
fn draw_rect_outside_the_canvas_paints_nothing() {
    let color = Color::new(1, 1, 1, 1);
    let mut pixels = vec![0u8; 2 * 2 * 4];
    draw_rect(&mut pixels, 2, 2, 2, 0, 3, 3, &color);
    draw_rect(&mut pixels, 2, 2, 0, 5, 3, 3, &color);
    draw_rect(&mut pixels, 2, 2, u32::MAX, u32::MAX, u32::MAX, u32::MAX, &color);
    draw_rect(&mut pixels, 2, 2, 0, 0, 0, 2, &color);
    assert_eq!(pixels, vec![0u8; 16]);
}

#[test]
fn draw_rect_overwrites_all_four_channels() {
    let mut pixels = vec![200u8; 2 * 1 * 4];
    draw_rect(&mut pixels, 2, 1, 1, 0, 1, 1, &Color::new(1, 2, 3, 0));
    assert_eq!(pixels, vec![200, 200, 200, 200, 1, 2, 3, 0]);
}

#[test]
fn draw_circle_is_clipped_to_the_rows_it_is_given() {
    let color = Color::new(5, 5, 5, 5);
    let mut pixels = vec![0u8; 5 * 5 * 4];
    // Only the first two rows belong to the canvas of this call.
    draw_circle(&mut pixels, 5, 2, 2, 2, 2, &color);
    assert_eq!(painted(&pixels[..2 * 5 * 4], &color), 4);
    assert_eq!(painted(&pixels[2 * 5 * 4..], &color), 0);
}

#[test]
fn draw_circle_near_the_corner() {
    let color = Color::new(5, 5, 5, 5);
    let mut pixels = vec![0u8; 3 * 3 * 4];
    draw_circle(&mut pixels, 3, 3, 0, 0, 2, &color);
    // (0,0), (1,0), (0,1), (1,1): the box ends before column and row 2.
    assert_eq!(painted(&pixels, &color), 4);
}

#[test]
fn clear_background_leaves_the_rest_of_the_buffer() {
    let color = Color::new(1, 2, 3, 4);
    let mut pixels = vec![0u8; 20];
    clear_background(&mut pixels, 2, 2, &color);
    assert_eq!(&pixels[..16], &[1, 2, 3, 4, 1, 2, 3, 4, 1, 2, 3, 4, 1, 2, 3, 4]);
    assert_eq!(&pixels[16..], &[0, 0, 0, 0]);
}

#[test]
fn color_lerp_blends_every_channel() {
    let white = Color::new(255, 255, 255, 255);
    let blue = Color::new(100, 100, 255, 55);
    assert_eq!(white.lerp(&blue, 0), white);
    assert_eq!(white.lerp(&blue, 65536), blue);
    assert_eq!(white.lerp(&blue, 32768), Color::new(178, 178, 255, 155));
    assert_eq!(blue.lerp(&white, 32768), Color::new(177, 177, 255, 155));
}
