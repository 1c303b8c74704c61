use graph_renderer::axis::{AxisConfig, LINE_THICKNESS, MAX_SCALE_LINES};
use graph_renderer::types::ScaleLineObject;
use graph_renderer::utils::PreAllocatedCollection;

fn config(max_value: u32, plot_height: u32, smallest_scale: u32, min_pixel_distance: u32) -> AxisConfig {
    AxisConfig {
        width: 500,
        height: plot_height,
        top: 0,
        bottom: 0,
        max_value,
        axis_width: 0,
        smallest_scale,
        min_pixel_distance,
        major_intensity: 150,
        minor_intensity: 80,
        edge_intensity: 200,
    }
}

fn lines_of(axis: &AxisConfig) -> Vec<ScaleLineObject> {
    let blank = ScaleLineObject { x: 0, y: 0, width: 0, height: 0, intensity: 0, value: 0 };
    let mut lines = PreAllocatedCollection::new(blank, 0, MAX_SCALE_LINES);
    assert!(axis.count_lines() <= MAX_SCALE_LINES as u64);
    axis.calculate_scale_lines(&mut lines);
    lines.to_vec()
}

fn line(y: u32, intensity: u8, value: u32) -> ScaleLineObject {
    ScaleLineObject { x: 0, y, width: 500, height: LINE_THICKNESS, intensity, value }
}

#[test]
fn scale_lines_for_a_hundred_on_five_hundred_pixels() {
    let axis = config(100, 500, 1, 50);
    let lines = lines_of(&axis);
    assert_eq!(
        lines,
        vec![
            line(0, 200, 100),
            line(418, 80, 16),
            line(338, 150, 32),
            line(258, 80, 48),
            line(178, 150, 64),
            line(98, 80, 80),
            line(498, 200, 0),
        ]
    );
    // The step is five pixels times the least power of two that reaches fifty.
    let step = lines[1].y - lines[2].y;
    assert_eq!(step, 5 * 16);
    assert!(step >= 50);
    assert!(5 * 8 < 50);
    assert_eq!(lines.first().unwrap().value, 100);
    assert_eq!(lines.last().unwrap().value, 0);
    assert_eq!(axis.count_lines(), 7);
}

#[test]
fn scale_lines_keep_the_smallest_step_when_it_is_wide_enough() {
    // 100 pixels per unit: no widening, four steps fit, the fourth is too
    // close to the top.
    let lines = lines_of(&config(4, 400, 1, 50));
    assert_eq!(
        lines,
        vec![
            line(0, 200, 4),
            line(298, 80, 1),
            line(198, 150, 2),
            line(98, 80, 3),
            line(398, 200, 0),
        ]
    );
}

#[test]
fn scale_lines_drop_what_comes_too_close_to_the_top() {
    // Steps of 80 pixels on 500: the sixth line would lie 20 pixels below the
    // top, less than two thirds of 50.
    let lines = lines_of(&config(100, 500, 1, 50));
    assert_eq!(lines.len(), 7);
    // With a least distance of 30 the step is 40 pixels: twelve steps fit,
    // and the twelfth, 20 pixels below the top, is kept.
    let lines = lines_of(&config(100, 500, 1, 30));
    assert_eq!(lines.len(), 14);
    assert_eq!(lines[12].y, 500 - 2 - 480);
    assert_eq!(lines[12].value, 96);
}

#[test]
fn scale_lines_of_a_degenerate_axis_are_skipped() {
    assert_eq!(lines_of(&config(0, 500, 1, 50)), vec![]);
    assert_eq!(lines_of(&config(100, 0, 1, 50)), vec![]);
    assert_eq!(lines_of(&config(100, 500, 0, 50)), vec![]);
    // Half a pixel per step and no least distance: below one pixel.
    assert_eq!(lines_of(&config(1000, 500, 1, 0)), vec![]);
    assert_eq!(config(1000, 500, 1, 0).count_lines(), 0);
    // Margins that leave no plot.
    let mut axis = config(100, 500, 1, 50);
    axis.top = 300;
    axis.bottom = 300;
    assert_eq!(lines_of(&axis), vec![]);
}

#[test]
fn scale_lines_shrink_when_the_axis_turns_degenerate() {
    let blank = ScaleLineObject { x: 0, y: 0, width: 0, height: 0, intensity: 0, value: 0 };
    let mut lines = PreAllocatedCollection::new(blank, 0, MAX_SCALE_LINES);
    config(100, 500, 1, 50).calculate_scale_lines(&mut lines);
    assert_eq!(lines.len(), 7);
    config(0, 500, 1, 50).calculate_scale_lines(&mut lines);
    assert_eq!(lines.len(), 0);
}

#[test]
fn scale_lines_respect_margins_and_axis_width() {
    let axis = AxisConfig {
        width: 560,
        height: 540,
        top: 20,
        bottom: 20,
        max_value: 20,
        axis_width: 40,
        smallest_scale: 1,
        min_pixel_distance: 50,
        major_intensity: 100,
        minor_intensity: 50,
        edge_intensity: 255,
    };
    let lines = lines_of(&axis);
    assert_eq!(lines.len(), 11);
    assert_eq!(
        lines[0],
        ScaleLineObject { x: 40, y: 20, width: 520, height: 2, intensity: 255, value: 20 }
    );
    assert_eq!(
        lines[1],
        ScaleLineObject { x: 40, y: 468, width: 520, height: 2, intensity: 50, value: 2 }
    );
    assert_eq!(
        lines[2],
        ScaleLineObject { x: 40, y: 418, width: 520, height: 2, intensity: 100, value: 4 }
    );
    assert_eq!(
        lines[9],
        ScaleLineObject { x: 40, y: 68, width: 520, height: 2, intensity: 50, value: 18 }
    );
    assert_eq!(
        lines[10],
        ScaleLineObject { x: 40, y: 518, width: 520, height: 2, intensity: 255, value: 0 }
    );
}

#[test]
fn count_lines_tells_when_the_lines_do_not_fit() {
    // One pixel per step on 500 pixels, no least distance.
    let axis = config(500, 500, 1, 0);
    assert_eq!(axis.count_lines(), 502);
    assert!(axis.count_lines() > MAX_SCALE_LINES as u64);
}

#[test]
fn scale_lines_of_the_largest_numbers() {
    let axis = AxisConfig {
        width: u32::MAX,
        height: u32::MAX,
        top: 0,
        bottom: 0,
        max_value: u32::MAX,
        axis_width: 0,
        smallest_scale: 1,
        min_pixel_distance: u32::MAX,
        major_intensity: 150,
        minor_intensity: 80,
        edge_intensity: 200,
    };
    // One step as high as the plot; it is too close to the top.
    assert_eq!(axis.count_lines(), 2);
    let lines = lines_of(&axis);
    assert_eq!(lines[0].value, u32::MAX);
    assert_eq!(lines[1].y, u32::MAX - 2);
}
