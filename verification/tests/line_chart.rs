use graph_renderer::line_chart::{
    LineChart, LineChartDataPoint, LineChartLayout, LineChartOptions, PointLayout, PointOptions,
    WasmLineChartData,
};
use graph_renderer::raster::Color;
use graph_renderer::types::{
    ClickingState, PointerState, Positioning, SelectedState, ValueAxisLayout,
};
use graph_renderer::utils::UNIT;

const BLACK: Color = Color { r: 0, g: 0, b: 0, a: 255 };
const WHITE: Color = Color { r: 255, g: 255, b: 255, a: 255 };
const RED: Color = Color { r: 255, g: 0, b: 0, a: 255 };
const GREEN: Color = Color { r: 0, g: 255, b: 0, a: 51 };
const BLUE: Color = Color { r: 0, g: 0, b: 255, a: 255 };

fn data(points: &[(i32, i32)]) -> Vec<LineChartDataPoint> {
    points.iter().map(|(x, y)| LineChartDataPoint { x: *x, y: *y }).collect()
}

fn layout() -> LineChartLayout {
    LineChartLayout {
        positioning: Positioning { bottom: 20, top: 30, left: 10, right: 40 },
        point_layout: PointLayout { radius: 10 },
        value_axis_layout: ValueAxisLayout {
            value_axis_width: 50,
            value_axis_smallest_scale: 1,
            value_axis_min_pixel_distance: 50,
        },
    }
}

fn options(max_points: usize) -> LineChartOptions {
    LineChartOptions {
        background_color: BLACK,
        point_options: PointOptions {
            color: RED,
            hover_color: GREEN,
            selected_color: BLUE,
            hover_scale: UNIT + UNIT / 2,
            max_points,
        },
        value_axis_color: WHITE,
    }
}

fn chart(points: &[(i32, i32)]) -> LineChart {
    LineChart::new(data(points), 0, 400, 300, layout(), options(16))
}

fn four_points() -> LineChart {
    chart(&[(0, 0), (5, 10), (10, 20), (-5, 5)])
}

fn frame(
    chart: &mut LineChart,
    now: u64,
    pointer: Option<(u32, u32)>,
    click: ClickingState,
) -> WasmLineChartData {
    assert!(chart.frame_fits());
    chart.update(now, pointer.map(|p| p.0), pointer.map(|p| p.1), click)
}

fn places(chart: &LineChart) -> Vec<(u32, u32)> {
    (0..chart.get_points_len()).map(|i| (chart.get_point_x_at(i), chart.get_point_y_at(i))).collect()
}

fn selected_count(chart: &LineChart) -> usize {
    (0..chart.get_points_len()).filter(|i| chart.get_point_at(*i).is_selected()).count()
}

fn six_times(color: Color) -> Vec<u8> {
    (0..6).flat_map(|_| [color.r, color.g, color.b, color.a]).collect()
}

#[test]
fn new_line_chart_has_a_point_per_data_point() {
    let chart = four_points();
    assert_eq!(chart.get_width(), 400);
    assert_eq!(chart.get_height(), 300);
    assert_eq!(chart.get_points_len(), 4);
    assert_eq!(chart.get_scale_lines_count(), 0);
    assert!(chart.get_is_animating());
    assert_eq!(chart.get_selected_point_index(), None);
    assert_eq!(chart.get_hovered_point_index(), None);
    assert_eq!(places(&chart), vec![(0, 0); 4]);
}

#[test]
fn points_are_scaled_into_the_plot() {
    let mut chart = four_points();
    frame(&mut chart, 1000, None, ClickingState::Idle);
    // The plot is 300 pixels wide from 60 on and 250 pixels high up from 280.
    // The range of x is 15, the largest y is 20; a negative x lies at the left.
    assert_eq!(places(&chart), vec![(60, 280), (160, 155), (260, 30), (60, 218)]);
    let point = chart.get_point_at(1);
    assert_eq!((point.width, point.height), (10, 10));
}

#[test]
fn points_without_a_range_lie_in_the_corner() {
    let mut chart = chart(&[(0, 0), (0, -4)]);
    frame(&mut chart, 1000, None, ClickingState::Idle);
    assert_eq!(places(&chart), vec![(60, 280), (60, 280)]);
    assert_eq!(chart.get_scale_lines_count(), 0);
}

#[test]
fn line_chart_lays_out_its_scale_lines() {
    let mut chart = four_points();
    frame(&mut chart, 1000, None, ClickingState::Idle);
    assert_eq!(chart.get_scale_lines_count(), 6);
    let lines: Vec<_> = (0..6)
        .map(|i| {
            (
                chart.get_scale_line_x_at(i),
                chart.get_scale_line_y_at(i),
                chart.get_scale_line_value_at(i),
            )
        })
        .collect();
    assert_eq!(
        lines,
        vec![(50, 30, 20), (50, 228, 4), (50, 178, 8), (50, 128, 12), (50, 78, 16), (50, 278, 0)]
    );
}

#[test]
fn frame_holds_the_quads_of_the_scale_lines() {
    let mut chart = four_points();
    let arrays = frame(&mut chart, 1000, None, ClickingState::Idle);
    assert_eq!(arrays.vertex_array_general.len(), 6 * 12);
    assert_eq!(
        &arrays.vertex_array_general[..12],
        &[-49152, 51555, -49152, 52429, 65536, 52429, 65536, 51555, -49152, 51555, 65536, 52429]
    );
    assert_eq!(
        &arrays.vertex_array_general[12..24],
        &[
            -49152, -34952, -49152, -34078, 65536, -34078, 65536, -34952, -49152, -34952, 65536,
            -34078
        ]
    );
    assert_eq!(
        &arrays.vertex_array_general[60..],
        &[
            -49152, -56797, -49152, -55924, 65536, -55924, 65536, -56797, -49152, -56797, 65536,
            -55924
        ]
    );
}

#[test]
fn frame_holds_the_colors_of_the_scale_lines() {
    let mut chart = four_points();
    let arrays = frame(&mut chart, 1000, None, ClickingState::Idle);
    let minor = Color::new(49, 49, 49, 255);
    let major = Color::new(99, 99, 99, 255);
    let mut expected = Vec::new();
    for color in [WHITE, minor, major, minor, major, WHITE] {
        expected.extend(six_times(color));
    }
    assert_eq!(arrays.colors_array_general, expected);
}

#[test]
fn frame_holds_the_quads_of_the_points() {
    let mut chart = four_points();
    let arrays = frame(&mut chart, 1000, None, ClickingState::Idle);
    assert_eq!(arrays.vertex_array_points.len(), 4 * 12);
    assert_eq!(
        &arrays.vertex_array_points[..12],
        &[
            -45876, -61166, -45876, -56797, -42599, -56797, -42599, -61166, -45876, -61166, -42599,
            -56797
        ]
    );
    assert_eq!(
        &arrays.vertex_array_points[12..24],
        &[-13108, -6553, -13108, -2184, -9831, -2184, -9831, -6553, -13108, -6553, -9831, -2184]
    );
    assert_eq!(
        &arrays.vertex_array_points[24..36],
        &[19660, 48060, 19660, 52429, 22937, 52429, 22937, 48060, 19660, 48060, 22937, 52429]
    );
    assert_eq!(
        &arrays.vertex_array_points[36..],
        &[
            -45876, -34078, -45876, -29709, -42599, -29709, -42599, -34078, -45876, -34078, -42599,
            -29709
        ]
    );
}

#[test]
fn frame_holds_the_colors_of_the_points() {
    let mut chart = four_points();
    let arrays = frame(&mut chart, 1000, None, ClickingState::Idle);
    let mut expected = Vec::new();
    for _ in 0..4 {
        expected.extend(six_times(RED));
    }
    assert_eq!(arrays.colors_array_points, expected);
}

#[test]
fn hovered_point_is_drawn_larger() {
    let mut chart = four_points();
    frame(&mut chart, 1000, Some((165, 160)), ClickingState::Idle);
    assert_eq!(chart.get_hovered_point_index(), Some(1));
    assert_eq!(chart.get_point_at(1).pointer_state, PointerState::Hover);
    let arrays = frame(&mut chart, 1200, Some((165, 160)), ClickingState::Idle);
    assert_eq!(chart.get_point_at(1).scale, UNIT + UNIT / 2);
    assert_eq!(
        &arrays.vertex_array_points[12..24],
        &[-13927, -6553, -13927, -2184, -9012, -2184, -9012, -6553, -13927, -6553, -9012, -2184]
    );
}

#[test]
fn hit_box_of_a_point_is_its_square() {
    let mut chart = four_points();
    for (pointer, hovered) in [
        ((160, 155), Some(1)),
        ((170, 165), Some(1)),
        ((171, 160), None),
        ((159, 160), None),
        ((165, 166), None),
        ((60, 280), Some(0)),
        ((60, 220), Some(3)),
    ] {
        frame(&mut chart, 1000, Some(pointer), ClickingState::Idle);
        assert_eq!(chart.get_hovered_point_index(), hovered);
    }
}

#[test]
fn first_of_two_points_in_one_place_is_hovered() {
    let mut chart = chart(&[(10, 20), (5, 10), (5, 10)]);
    frame(&mut chart, 1000, Some((215, 160)), ClickingState::JustReleased);
    assert_eq!(places(&chart), vec![(360, 30), (210, 155), (210, 155)]);
    assert_eq!(chart.get_hovered_point_index(), Some(1));
    assert_eq!(chart.get_selected_point_index(), Some(1));
    assert_eq!(chart.get_point_at(2).pointer_state, PointerState::Idle);
    assert!(!chart.get_point_at(2).is_selected());
}

#[test]
fn holding_tints_a_point_by_the_alpha_of_the_hover_color() {
    let mut chart = four_points();
    frame(&mut chart, 1000, Some((165, 160)), ClickingState::Holding);
    assert_eq!(chart.get_point_at(1).clicking_anim.to, 13107);
    let arrays = frame(&mut chart, 1300, Some((165, 160)), ClickingState::Holding);
    assert_eq!(chart.get_point_at(1).color_t, 13107);
    // A fifth of the way from red to the hover color, in every channel,
    // rounded towards red.
    assert_eq!(&arrays.colors_array_points[24..28], &[205, 50, 0, 215]);
}

#[test]
fn clicking_a_point_selects_it_and_clicking_again_deselects_it() {
    let mut chart = four_points();
    frame(&mut chart, 1000, Some((265, 35)), ClickingState::JustReleased);
    assert_eq!(chart.get_selected_point_index(), Some(2));
    assert_eq!(chart.get_point_at(2).selected_state, SelectedState::Selected { timestamp: 1000 });
    let arrays = frame(&mut chart, 1200, Some((265, 35)), ClickingState::Idle);
    assert_eq!(&arrays.colors_array_points[48..52], &[0, 0, 255, 255]);
    frame(&mut chart, 2000, Some((265, 35)), ClickingState::JustReleased);
    assert_eq!(chart.get_selected_point_index(), None);
    assert_eq!(chart.get_point_at(2).selected_state, SelectedState::Unselected { timestamp: 2000 });
    let arrays = frame(&mut chart, 2200, Some((265, 35)), ClickingState::Idle);
    assert_eq!(&arrays.colors_array_points[48..52], &[255, 0, 0, 255]);
}

#[test]
fn at_most_one_point_is_selected_after_any_clicks() {
    let mut chart = four_points();
    let spots = [(65, 285), (165, 160), (265, 35), (65, 222), (300, 200)];
    let mut seed: u32 = 7;
    for step in 0..300u64 {
        seed = seed.wrapping_mul(1103515245).wrapping_add(12345);
        let spot = spots[((seed >> 16) % 5) as usize];
        let click = match (seed >> 12) % 3 {
            0 => ClickingState::Idle,
            1 => ClickingState::Holding,
            _ => ClickingState::JustReleased,
        };
        frame(&mut chart, 1000 + step * 16, Some(spot), click);
        assert!(selected_count(&chart) <= 1);
        match chart.get_selected_point_index() {
            Some(s) => assert!(chart.get_point_at(s).is_selected()),
            None => assert_eq!(selected_count(&chart), 0),
        }
    }
}

#[test]
fn line_chart_update_twice_gives_the_same_arrays() {
    for click in [ClickingState::Idle, ClickingState::Holding, ClickingState::JustReleased] {
        let mut chart = four_points();
        frame(&mut chart, 900, Some((65, 285)), ClickingState::Idle);
        let once = frame(&mut chart, 1000, Some((165, 160)), click);
        let hovered = chart.get_hovered_point_index();
        let twice = frame(&mut chart, 1000, Some((165, 160)), click);
        assert_eq!(once.vertex_array_general, twice.vertex_array_general);
        assert_eq!(once.colors_array_general, twice.colors_array_general);
        assert_eq!(once.vertex_array_points, twice.vertex_array_points);
        assert_eq!(hovered, chart.get_hovered_point_index());
        if click != ClickingState::JustReleased {
            assert_eq!(once.colors_array_points, twice.colors_array_points);
        }
    }
}

#[test]
fn update_data_replaces_the_points() {
    let mut chart = four_points();
    frame(&mut chart, 5000, None, ClickingState::Idle);
    assert!(!chart.get_is_animating());
    chart.update_data(data(&[(2, 2), (4, 1)]), 6000);
    assert!(chart.get_is_animating());
    assert_eq!(chart.get_points_len(), 2);
    assert_eq!(chart.get_hovered_point_index(), None);
    let arrays = frame(&mut chart, 6000, None, ClickingState::Idle);
    // The range of x is 4, the largest y is 2.
    assert_eq!(places(&chart), vec![(210, 30), (360, 155)]);
    assert_eq!(arrays.vertex_array_points.len(), 24);
    assert_eq!(arrays.colors_array_points.len(), 48);
    assert!(chart.get_is_animating());
}

#[test]
fn line_chart_update_data_forces_one_animating_frame() {
    let mut chart = four_points();
    chart.update_data(data(&[(2, 2)]), 0);
    assert!(chart.get_is_animating());
    frame(&mut chart, 9000, None, ClickingState::Idle);
    assert!(chart.get_is_animating());
    frame(&mut chart, 9016, None, ClickingState::Idle);
    assert!(!chart.get_is_animating());
}

#[test]
fn line_chart_update_data_keeps_the_selection_in_its_place() {
    let mut chart = four_points();
    chart.toggle_point_selection_at(1, 700);
    assert_eq!(chart.get_selected_point_index(), Some(1));
    chart.update_data(data(&[(1, 1), (2, 2), (3, 3)]), 6000);
    assert_eq!(chart.get_selected_point_index(), Some(1));
    assert_eq!(chart.get_point_at(1).selected_state, SelectedState::Selected { timestamp: 700 });
    assert_eq!(chart.get_point_at(2).selected_state, SelectedState::Unselected { timestamp: 0 });
    chart.update_data(data(&[(1, 1), (2, 2), (3, 3), (4, 4), (5, 5)]), 6500);
    assert_eq!(chart.get_point_at(4).selected_state, SelectedState::Unselected { timestamp: 6500 });
    assert_eq!(chart.get_selected_point_index(), Some(1));
    chart.update_data(data(&[(1, 1)]), 7000);
    assert_eq!(chart.get_selected_point_index(), None);
    assert_eq!(selected_count(&chart), 0);
}

#[test]
fn line_chart_toggle_and_deselect_by_hand() {
    let mut chart = four_points();
    chart.toggle_point_selection_at(3, 10);
    chart.toggle_point_selection_at(0, 20);
    assert_eq!(chart.get_selected_point_index(), Some(0));
    assert_eq!(selected_count(&chart), 1);
    chart.deselect_points(30);
    assert_eq!(chart.get_selected_point_index(), None);
    assert_eq!(chart.get_point_at(0).selected_state, SelectedState::Unselected { timestamp: 30 });
    assert_eq!(chart.get_point_at(3).selected_state, SelectedState::Unselected { timestamp: 20 });
}

#[test]
fn frame_fits_tells_when_there_are_too_many_points() {
    let crowded = LineChart::new(data(&[(1, 1), (2, 2), (3, 3)]), 0, 400, 300, layout(), options(2));
    assert!(!crowded.frame_fits());
    let roomy = LineChart::new(data(&[(1, 1), (2, 2)]), 0, 400, 300, layout(), options(2));
    assert!(roomy.frame_fits());
}

#[test]
fn frame_fits_tells_when_there_are_too_many_lines() {
    let mut dense = layout();
    dense.value_axis_layout.value_axis_min_pixel_distance = 0;
    let chart = LineChart::new(data(&[(1, 250)]), 0, 400, 300, dense, options(4));
    assert!(!chart.frame_fits());
}

#[test]
fn line_chart_resize_moves_the_points() {
    let mut chart = four_points();
    chart.resize(200, 150);
    assert_eq!(chart.get_width(), 200);
    assert_eq!(chart.get_height(), 150);
    let arrays = frame(&mut chart, 1000, None, ClickingState::Idle);
    // The plot is 100 by 100 pixels now.
    assert_eq!(places(&chart), vec![(60, 130), (93, 80), (126, 30), (60, 105)]);
    assert_eq!(arrays.vertex_array_general.len(), chart.get_scale_lines_count() * 12);
}

#[test]
fn buffers_shrink_and_grow_with_the_data() {
    let mut chart = four_points();
    assert_eq!(frame(&mut chart, 1000, None, ClickingState::Idle).vertex_array_points.len(), 48);
    chart.update_data(data(&[]), 2000);
    let arrays = frame(&mut chart, 2000, None, ClickingState::Idle);
    assert_eq!(arrays.vertex_array_points.len(), 0);
    assert_eq!(arrays.colors_array_points.len(), 0);
    assert_eq!(arrays.vertex_array_general.len(), 0);
    chart.update_data(data(&[(1, 1); 16]), 3000);
    let arrays = frame(&mut chart, 3000, None, ClickingState::Idle);
    assert_eq!(arrays.vertex_array_points.len(), 16 * 12);
    assert_eq!(arrays.colors_array_points.len(), 16 * 24);
}
