use graph_renderer::bar_chart::DataPoint;
use graph_renderer::raster::Color;
use graph_renderer::renderer::GraphRenderer;
use graph_renderer::utils::UNIT;

const GROUND: Color = Color { r: 1, g: 2, b: 3, a: 4 };

fn renderer(values: &[i32]) -> GraphRenderer {
    let data = values.iter().map(|v| DataPoint::new(String::new(), *v)).collect();
    GraphRenderer::new(data, 12, 6, GROUND, 0, 0, 0, 0, 1, 1, 1)
}

fn pixel(renderer: &GraphRenderer, x: usize, y: usize) -> Color {
    let at = (y * renderer.get_width() as usize + x) * 4;
    let p = &renderer.pixels()[at..at + 4];
    Color::new(p[0], p[1], p[2], p[3])
}

#[test]
fn new_renderer_has_a_cleared_buffer() {
    let renderer = renderer(&[1, 2]);
    assert_eq!(renderer.get_width(), 12);
    assert_eq!(renderer.get_height(), 6);
    assert_eq!(renderer.pixels(), &vec![0u8; 12 * 6 * 4]);
    let empty = GraphRenderer::new(Vec::new(), 0, 0, GROUND, 0, 0, 0, 0, 0, 0, 0);
    assert_eq!(empty.pixels().len(), 0);
}

#[test]
fn renderer_draws_a_rectangle_per_data_point() {
    let mut renderer = renderer(&[UNIT as i32, UNIT as i32 / 2, 0]);
    renderer.update_pixels(UNIT as i32, -(UNIT as i32) / 2, 0);
    let colors = [
        Color::new(100, 0, 0, 255),
        Color::new(150, 0, 50, 255),
        Color::new(200, 50, 100, 255),
    ];
    // Bars of 3 pixels at 0, 4 and 8, of 6, 3 and 1 pixels height.
    let tops = [0, 3, 5];
    for y in 0..6 {
        for x in 0..12 {
            let bar = x / 4;
            let expected = if x % 4 < 3 && y >= tops[bar] { colors[bar] } else { GROUND };
            assert_eq!(pixel(&renderer, x, y), expected, "at ({x}, {y})");
        }
    }
}

#[test]
fn renderer_colors_are_cut_off_at_the_ends_of_the_range() {
    let mut renderer = GraphRenderer::new(
        (0..7).map(|_| DataPoint::new(String::new(), UNIT as i32)).collect(),
        7,
        1,
        GROUND,
        0,
        0,
        0,
        0,
        0,
        1,
        1,
    );
    renderer.update_pixels(UNIT as i32, 36045, -1);
    // Bar 6 on the wave's crest: 300 + 100 is cut to 255.
    assert_eq!(pixel(&renderer, 6, 0).r, 255);
    // Bar 4: 200 + 55.0003, rounded down.
    assert_eq!(pixel(&renderer, 4, 0).g, 255);
    // Bar 5: 250 less a little, rounded down.
    assert_eq!(pixel(&renderer, 5, 0).b, 249);
    // Bar 0 below the wave: cut to 0.
    renderer.update_pixels(-(UNIT as i32), i32::MIN, i32::MAX);
    assert_eq!(pixel(&renderer, 0, 0), Color::new(0, 0, 255, 255));
}

#[test]
fn renderer_clears_the_last_frame() {
    let mut renderer = renderer(&[UNIT as i32]);
    renderer.draw_rect(0, 0, 12, 6, Color::new(9, 9, 9, 9));
    assert_eq!(pixel(&renderer, 11, 5), Color::new(9, 9, 9, 9));
    renderer.update_pixels(0, 0, 0);
    // One bar as wide as the canvas, in the color of the wave at rest.
    assert_eq!(pixel(&renderer, 11, 5), Color::new(0, 0, 0, 255));
    assert_eq!(pixel(&renderer, 0, 0), Color::new(0, 0, 0, 255));
}

#[test]
fn renderer_draw_rect_is_clipped() {
    let mut renderer = renderer(&[]);
    renderer.draw_rect(10, 4, 50, 50, Color::new(7, 7, 7, 7));
    let painted = renderer.pixels().chunks(4).filter(|p| p == &[7, 7, 7, 7]).count();
    assert_eq!(painted, 4);
    assert_eq!(pixel(&renderer, 9, 4), Color::new(0, 0, 0, 0));
    assert_eq!(pixel(&renderer, 10, 3), Color::new(0, 0, 0, 0));
}

#[test]
fn renderer_resize_clears_the_buffer() {
    let mut renderer = renderer(&[UNIT as i32]);
    renderer.update_pixels(0, 0, 0);
    renderer.resize(3, 2);
    assert_eq!(renderer.get_width(), 3);
    assert_eq!(renderer.get_height(), 2);
    assert_eq!(renderer.pixels(), &vec![0u8; 24]);
    renderer.update_pixels(UNIT as i32, 0, 0);
    assert_eq!(pixel(&renderer, 2, 1), Color::new(100, 0, 0, 255));
}
