use graph_renderer::bar_chart::{BarChart, BarChartLayout, BarLayout, DataPoint};
use graph_renderer::raster::Color;
use graph_renderer::types::{
    ClickingState, PointerState, Positioning, SelectedState, ValueAxisLayout,
};
use graph_renderer::utils::UNIT;

const START: u64 = 1000;
const WHITE: Color = Color { r: 255, g: 255, b: 255, a: 255 };
const BLUE: Color = Color { r: 100, g: 100, b: 255, a: 255 };
const GROUND: Color = Color { r: 10, g: 20, b: 30, a: 255 };

fn points(values: &[i32]) -> Vec<DataPoint> {
    values.iter().enumerate().map(|(i, v)| DataPoint::new(format!("bar {i}"), *v)).collect()
}

fn layout() -> BarChartLayout {
    BarChartLayout {
        positioning: Positioning { bottom: 20, top: 20, left: 30, right: 30 },
        bar_layout: BarLayout { gap: 10, bar_corner_radius: 4, min_width: 1, min_height: 1 },
        value_axis_layout: ValueAxisLayout {
            value_axis_width: 0,
            value_axis_smallest_scale: 1,
            value_axis_min_pixel_distance: 50,
        },
    }
}

fn chart(values: &[i32]) -> BarChart {
    BarChart::new(points(values), START, 560, 540, GROUND, layout(), UNIT + UNIT / 4)
}

fn frame(chart: &mut BarChart, now: u64, pointer: Option<(u32, u32)>, click: ClickingState) {
    assert!(chart.lines_fit());
    chart.update(now, pointer.map(|p| p.0), pointer.map(|p| p.1), click);
}

fn heights(chart: &BarChart) -> Vec<u32> {
    (0..chart.get_bars_len()).map(|i| chart.get_bar_height_at(i)).collect()
}

fn tops(chart: &BarChart) -> Vec<u32> {
    (0..chart.get_bars_len()).map(|i| chart.get_bar_y_at(i)).collect()
}

fn selected_count(chart: &BarChart) -> usize {
    (0..chart.get_bars_len()).filter(|i| chart.get_bar_at(*i).is_selected()).count()
}

fn art(chart: &BarChart, key: &[(Color, char)]) -> Vec<String> {
    let width = chart.get_width() as usize;
    chart
        .pixels()
        .chunks(4 * width)
        .map(|row| {
            row.chunks(4)
                .map(|p| {
                    let color = Color::new(p[0], p[1], p[2], p[3]);
                    key.iter().find(|(c, _)| *c == color).map(|(_, ch)| *ch).unwrap_or('?')
                })
                .collect()
        })
        .collect()
}

#[test]
fn new_chart_has_a_bar_per_data_point_and_no_lines() {
    let chart = chart(&[10, 20, 5]);
    assert_eq!(chart.get_width(), 560);
    assert_eq!(chart.get_height(), 540);
    assert_eq!(chart.get_bars_len(), 3);
    assert_eq!(chart.get_scale_lines_count(), 0);
    assert!(chart.get_is_animating());
    assert_eq!(chart.get_selected_bar_index(), None);
    assert_eq!(chart.get_hovered_bar_index(), None);
    assert_eq!(chart.get_bar_title_at(0), "bar 0");
    assert_eq!(chart.get_bar_title_at(2), "bar 2");
    assert_eq!(chart.pixels().len(), 560 * 540 * 4);
    assert!(chart.pixels().iter().all(|b| *b == 0));
    let bar = chart.get_bar_at(1);
    assert_eq!((bar.x, bar.y, bar.width, bar.height), (0, 0, 0, 0));
    assert_eq!(bar.selected_state, SelectedState::Unselected { timestamp: START });
}

#[test]
fn three_bars_grow_to_their_share_of_the_plot() {
    let mut chart = chart(&[10, 20, 5]);
    frame(&mut chart, START, None, ClickingState::Idle);
    assert_eq!(heights(&chart), vec![0, 0, 0]);
    assert_eq!(tops(&chart), vec![520, 520, 520]);
    assert!(chart.get_is_animating());
    // The largest value, 20, stands for the whole plot of 500 pixels.
    let max_delay = 200;
    frame(&mut chart, START + 600 + max_delay, None, ClickingState::Idle);
    assert_eq!(heights(&chart), vec![250, 500, 125]);
    assert_eq!(tops(&chart), vec![270, 20, 395]);
    assert!(!chart.get_is_animating());
    for i in 0..3 {
        assert_eq!(chart.get_bar_width_at(i), 160);
    }
    assert_eq!(
        (0..3).map(|i| chart.get_bar_x_at(i)).collect::<Vec<_>>(),
        vec![30, 200, 370]
    );
}

#[test]
fn bars_cascade_in() {
    let mut chart = chart(&[10, 20, 5]);
    frame(&mut chart, START + 100, None, ClickingState::Idle);
    assert_eq!(heights(&chart), vec![77, 0, 0]);
    frame(&mut chart, START + 250, None, ClickingState::Idle);
    assert_eq!(heights(&chart), vec![176, 227, 19]);
    assert_eq!(tops(&chart), vec![344, 293, 501]);
    frame(&mut chart, START + 500, None, ClickingState::Idle);
    assert_eq!(heights(&chart), vec![250, 475, 100]);
    frame(&mut chart, START + 600, None, ClickingState::Idle);
    assert_eq!(heights(&chart), vec![250, 500, 118]);
    frame(&mut chart, START + 700, None, ClickingState::Idle);
    assert_eq!(heights(&chart), vec![250, 500, 125]);
    // The last bar ends at 700; it counts as done once 700 has passed.
    assert!(chart.get_is_animating());
    frame(&mut chart, START + 701, None, ClickingState::Idle);
    assert!(!chart.get_is_animating());
}

#[test]
fn skipping_frames_jumps_along_the_curve() {
    let mut every_frame = chart(&[10, 20, 5]);
    for now in (START..=START + 250).step_by(10) {
        frame(&mut every_frame, now, None, ClickingState::Idle);
    }
    let mut one_frame = chart(&[10, 20, 5]);
    frame(&mut one_frame, START + 250, None, ClickingState::Idle);
    assert_eq!(heights(&every_frame), heights(&one_frame));
}

#[test]
fn bars_are_held_to_the_least_height() {
    let mut chart = chart(&[0, 1000, -3]);
    frame(&mut chart, START + 5000, None, ClickingState::Idle);
    assert_eq!(heights(&chart), vec![1, 500, 1]);
}

#[test]
fn chart_without_data_has_no_bars_and_no_lines() {
    let mut chart = chart(&[]);
    frame(&mut chart, START, None, ClickingState::Idle);
    assert_eq!(chart.get_bars_len(), 0);
    assert_eq!(chart.get_scale_lines_count(), 0);
    assert!(!chart.get_is_animating());
    chart.render();
    assert_eq!(&chart.pixels()[..4], &[10, 20, 30, 255]);
}

#[test]
fn scale_lines_are_laid_out_in_every_frame() {
    let mut chart = chart(&[10, 20, 5]);
    frame(&mut chart, START, None, ClickingState::Idle);
    assert_eq!(chart.get_scale_lines_count(), 11);
    assert_eq!(chart.get_scale_line_value_at(0), 20);
    assert_eq!(chart.get_scale_line_y_at(0), 20);
    assert_eq!(chart.get_scale_line_x_at(0), 0);
    assert_eq!(chart.get_scale_line_value_at(1), 2);
    assert_eq!(chart.get_scale_line_y_at(1), 468);
    assert_eq!(chart.get_scale_line_value_at(9), 18);
    assert_eq!(chart.get_scale_line_y_at(9), 68);
    assert_eq!(chart.get_scale_line_value_at(10), 0);
    assert_eq!(chart.get_scale_line_y_at(10), 518);
}

#[test]
fn lines_fit_tells_when_a_frame_cannot_be_laid_out() {
    let mut crowded = layout();
    crowded.value_axis_layout.value_axis_min_pixel_distance = 0;
    let too_many = BarChart::new(points(&[500]), START, 560, 540, GROUND, crowded, UNIT);
    // One line per pixel of the plot.
    assert!(!too_many.lines_fit());
    assert!(chart(&[10, 20, 5]).lines_fit());
}

#[test]
fn pointer_over_a_bar_hovers_it() {
    let mut chart = chart(&[10, 20, 5]);
    frame(&mut chart, START + 1000, Some((250, 300)), ClickingState::Idle);
    assert_eq!(chart.get_hovered_bar_index(), Some(1));
    assert_eq!(chart.get_bar_at(1).pointer_state, PointerState::Hover);
    assert_eq!(chart.get_bar_at(1).scale, UNIT);
    assert!(chart.get_is_animating());
    frame(&mut chart, START + 1100, Some((250, 300)), ClickingState::Idle);
    assert_eq!(chart.get_bar_at(1).scale, 77101);
    frame(&mut chart, START + 1200, Some((250, 300)), ClickingState::Idle);
    assert_eq!(chart.get_bar_at(1).scale, UNIT + UNIT / 4);
    assert!(chart.get_is_animating());
    frame(&mut chart, START + 1201, Some((250, 300)), ClickingState::Idle);
    assert!(!chart.get_is_animating());
    // Between two bars nothing is hovered.
    frame(&mut chart, START + 1300, Some((195, 300)), ClickingState::Idle);
    assert_eq!(chart.get_hovered_bar_index(), None);
    assert_eq!(chart.get_bar_at(1).pointer_state, PointerState::Idle);
    // Above a bar that has not grown that far nothing is hovered.
    frame(&mut chart, START + 1400, Some((100, 100)), ClickingState::Idle);
    assert_eq!(chart.get_hovered_bar_index(), None);
}

#[test]
fn clicking_a_hovered_bar_selects_it_and_clicking_again_deselects_it() {
    let mut chart = chart(&[10, 20, 5]);
    frame(&mut chart, START + 1000, Some((250, 300)), ClickingState::Idle);
    frame(&mut chart, START + 1016, Some((250, 300)), ClickingState::Holding);
    frame(&mut chart, START + 1032, Some((250, 300)), ClickingState::JustReleased);
    assert_eq!(chart.get_selected_bar_index(), Some(1));
    let bar = chart.get_bar_at(1);
    assert_eq!(bar.selected_state, SelectedState::Selected { timestamp: START + 1032 });
    assert_eq!(bar.clicking_state, ClickingState::JustReleased);
    frame(&mut chart, START + 1232, Some((250, 300)), ClickingState::Idle);
    assert_eq!(chart.get_bar_at(1).color, BLUE);
    assert_eq!(chart.get_bar_at(0).color, WHITE);

    frame(&mut chart, START + 2000, Some((250, 300)), ClickingState::JustReleased);
    assert_eq!(chart.get_selected_bar_index(), None);
    let bar = chart.get_bar_at(1);
    assert_eq!(bar.selected_state, SelectedState::Unselected { timestamp: START + 2000 });
    assert_eq!(bar.color, BLUE);
    frame(&mut chart, START + 2200, Some((250, 300)), ClickingState::Idle);
    assert_eq!(chart.get_bar_at(1).color, WHITE);
}

#[test]
fn clicking_empty_space_deselects_and_keeps_animating() {
    let mut chart = chart(&[10, 20, 5]);
    frame(&mut chart, START + 1000, Some((250, 300)), ClickingState::JustReleased);
    assert_eq!(chart.get_selected_bar_index(), Some(1));
    // The pointer leaves the bar, which shrinks back.
    frame(&mut chart, START + 2000, Some((5, 5)), ClickingState::Idle);
    assert!(chart.get_is_animating());
    frame(&mut chart, START + 3000, Some((5, 5)), ClickingState::Idle);
    assert!(!chart.get_is_animating());
    frame(&mut chart, START + 3016, Some((5, 5)), ClickingState::JustReleased);
    assert_eq!(chart.get_selected_bar_index(), None);
    assert_eq!(selected_count(&chart), 0);
    assert!(chart.get_is_animating());
}

#[test]
fn at_most_one_bar_is_selected_after_any_clicks() {
    let mut chart = chart(&[10, 20, 5, 7, 12]);
    let mut seed: u32 = 99;
    for step in 0..300u64 {
        seed = seed.wrapping_mul(1103515245).wrapping_add(12345);
        let x = (seed >> 16) % 560;
        let y = (seed >> 4) % 540;
        let click = match (seed >> 12) % 3 {
            0 => ClickingState::Idle,
            1 => ClickingState::Holding,
            _ => ClickingState::JustReleased,
        };
        frame(&mut chart, START + 2000 + step * 16, Some((x, y)), click);
        assert!(selected_count(&chart) <= 1);
        match chart.get_selected_bar_index() {
            Some(s) => assert!(chart.get_bar_at(s).is_selected()),
            None => assert_eq!(selected_count(&chart), 0),
        }
    }
}

#[test]
fn toggle_and_deselect_by_hand() {
    let mut chart = chart(&[10, 20, 5]);
    chart.toggle_bar_selection_at(2, 50);
    assert_eq!(chart.get_selected_bar_index(), Some(2));
    chart.toggle_bar_selection_at(0, 60);
    assert_eq!(chart.get_selected_bar_index(), Some(0));
    assert_eq!(chart.get_bar_at(2).selected_state, SelectedState::Unselected { timestamp: 60 });
    assert_eq!(selected_count(&chart), 1);
    chart.toggle_bar_selection_at(0, 70);
    assert_eq!(chart.get_selected_bar_index(), None);
    chart.toggle_bar_selection_at(1, 80);
    chart.deselect_bars(90);
    assert_eq!(chart.get_selected_bar_index(), None);
    assert_eq!(chart.get_bar_at(1).selected_state, SelectedState::Unselected { timestamp: 90 });
}

#[test]
fn update_twice_with_the_same_input_gives_the_same_geometry() {
    for click in [ClickingState::Idle, ClickingState::Holding, ClickingState::JustReleased] {
        let mut chart = chart(&[10, 20, 5]);
        frame(&mut chart, START + 300, Some((40, 500)), ClickingState::Idle);
        frame(&mut chart, START + 400, Some((250, 400)), click);
        let once: Vec<_> = (0..3).map(|i| chart.get_bar_at(i)).collect();
        let lines_once: Vec<_> = (0..11).map(|i| chart.get_scale_line_y_at(i)).collect();
        let hovered_once = chart.get_hovered_bar_index();
        frame(&mut chart, START + 400, Some((250, 400)), click);
        let twice: Vec<_> = (0..3).map(|i| chart.get_bar_at(i)).collect();
        let lines_twice: Vec<_> = (0..11).map(|i| chart.get_scale_line_y_at(i)).collect();
        assert_eq!(lines_once, lines_twice);
        assert_eq!(hovered_once, chart.get_hovered_bar_index());
        for (a, b) in once.iter().zip(twice.iter()) {
            assert_eq!((a.x, a.y, a.width, a.height, a.scale), (b.x, b.y, b.width, b.height, b.scale));
        }
        if click != ClickingState::JustReleased {
            assert_eq!(once, twice);
        }
    }
}

#[test]
fn update_data_restarts_the_growth_from_the_heights_on_screen() {
    let mut chart = chart(&[10, 20, 5]);
    frame(&mut chart, START + 1000, None, ClickingState::Idle);
    assert_eq!(heights(&chart), vec![250, 500, 125]);
    assert!(!chart.get_is_animating());

    chart.update_data(points(&[20, 10, 5, 40]), 5000);
    assert!(chart.get_is_animating());
    assert_eq!(chart.get_bars_len(), 4);
    assert_eq!(chart.get_bar_title_at(3), "bar 3");
    // Half, all and a quarter of the plot height; the new bar starts at none.
    assert_eq!(chart.get_bar_at(0).start_scale_t, UNIT / 2);
    assert_eq!(chart.get_bar_at(1).start_scale_t, UNIT);
    assert_eq!(chart.get_bar_at(2).start_scale_t, UNIT / 4);
    assert_eq!(chart.get_bar_at(3).start_scale_t, 0);

    // The largest value is now 40: the full heights are 250, 125, 62 and 500.
    frame(&mut chart, 5000, None, ClickingState::Idle);
    assert_eq!(heights(&chart), vec![125, 125, 15, 0]);
    assert!(chart.get_is_animating());
    frame(&mut chart, 5250, None, ClickingState::Idle);
    // Bar 0 is 46260 / 65536 of the way from a half to the whole.
    assert_eq!(chart.get_bar_height_at(0), 213);
    frame(&mut chart, 6000, None, ClickingState::Idle);
    assert_eq!(heights(&chart), vec![250, 125, 62, 500]);
}

#[test]
fn update_data_forces_one_animating_frame() {
    let mut chart = chart(&[10]);
    frame(&mut chart, START + 5000, None, ClickingState::Idle);
    assert!(!chart.get_is_animating());
    // Long ago: every animation of the new bars has ended.
    chart.update_data(points(&[10]), 0);
    assert!(chart.get_is_animating());
    frame(&mut chart, START + 5016, None, ClickingState::Idle);
    assert!(chart.get_is_animating());
    frame(&mut chart, START + 5032, None, ClickingState::Idle);
    assert!(!chart.get_is_animating());
}

#[test]
fn update_data_keeps_the_selection_in_its_place() {
    let mut chart = chart(&[10, 20, 5]);
    chart.toggle_bar_selection_at(1, 1500);
    chart.update_data(points(&[3, 4]), 5000);
    assert_eq!(chart.get_selected_bar_index(), Some(1));
    assert_eq!(chart.get_bar_at(1).selected_state, SelectedState::Selected { timestamp: 1500 });
    assert_eq!(chart.get_bar_at(0).selected_state, SelectedState::Unselected { timestamp: START });
    chart.update_data(points(&[3]), 6000);
    assert_eq!(chart.get_selected_bar_index(), None);
    assert_eq!(selected_count(&chart), 0);
    assert_eq!(chart.get_hovered_bar_index(), None);
}

#[test]
fn resize_clears_the_buffer_and_moves_the_bars() {
    let mut chart = chart(&[10, 20, 5]);
    frame(&mut chart, START + 1000, None, ClickingState::Idle);
    chart.render();
    assert!(chart.pixels().iter().any(|b| *b != 0));
    chart.resize(280, 140);
    assert_eq!(chart.get_width(), 280);
    assert_eq!(chart.get_height(), 140);
    assert_eq!(chart.pixels().len(), 280 * 140 * 4);
    assert!(chart.pixels().iter().all(|b| *b == 0));
    frame(&mut chart, START + 1016, None, ClickingState::Idle);
    // Plot of 220 by 100 pixels: bars of (230 - 30) / 3 pixels.
    assert_eq!(heights(&chart), vec![50, 100, 25]);
    assert_eq!(chart.get_bar_width_at(0), 66);
    assert_eq!(
        (0..3).map(|i| chart.get_bar_x_at(i)).collect::<Vec<_>>(),
        vec![30, 106, 183]
    );
}

fn small_chart(corner_radius: u32) -> BarChart {
    let layout = BarChartLayout {
        positioning: Positioning { bottom: 1, top: 1, left: 1, right: 1 },
        bar_layout: BarLayout { gap: 2, bar_corner_radius: corner_radius, min_width: 1, min_height: 1 },
        value_axis_layout: ValueAxisLayout {
            value_axis_width: 0,
            value_axis_smallest_scale: 0,
            value_axis_min_pixel_distance: 0,
        },
    };
    BarChart::new(points(&[1, 2]), 0, 24, 12, GROUND, layout, UNIT + UNIT / 4)
}

#[test]
fn render_draws_bars_with_rounded_corners() {
    let mut chart = small_chart(2);
    frame(&mut chart, 10000, None, ClickingState::Idle);
    chart.render();
    assert_eq!(
        art(&chart, &[(GROUND, '.'), (WHITE, '#')]),
        vec![
            "........................",
            "...............#######..",
            "..............#########.",
            ".............##########.",
            ".............##########.",
            ".............##########.",
            "...#######...##########.",
            "..#########..##########.",
            ".##########..##########.",
            ".##########..##########.",
            ".##########..##########.",
            "........................",
        ]
    );
}

#[test]
fn render_draws_a_hovered_bar_larger() {
    let mut chart = small_chart(2);
    frame(&mut chart, 10000, Some((5, 8)), ClickingState::Idle);
    frame(&mut chart, 10300, Some((5, 8)), ClickingState::Idle);
    assert_eq!(chart.get_bar_at(0).scale, UNIT + UNIT / 4);
    chart.render();
    assert_eq!(
        art(&chart, &[(GROUND, '.'), (WHITE, '#')]),
        vec![
            "........................",
            "...............#######..",
            "..............#########.",
            ".............##########.",
            ".............##########.",
            ".............##########.",
            "..#########..##########.",
            ".###########.##########.",
            "############.##########.",
            "############.##########.",
            "############.##########.",
            "........................",
        ]
    );
}

#[test]
fn render_draws_the_scale_lines_below_the_bars() {
    let layout = BarChartLayout {
        positioning: Positioning { bottom: 0, top: 0, left: 0, right: 0 },
        bar_layout: BarLayout { gap: 0, bar_corner_radius: 0, min_width: 0, min_height: 0 },
        value_axis_layout: ValueAxisLayout {
            value_axis_width: 2,
            value_axis_smallest_scale: 1,
            value_axis_min_pixel_distance: 5,
        },
    };
    let mut chart = BarChart::new(points(&[4, 0]), 0, 8, 20, GROUND, layout, UNIT);
    frame(&mut chart, 10000, None, ClickingState::Idle);
    chart.render();
    let key = [
        (GROUND, '.'),
        (WHITE, '#'),
        (Color::new(200, 200, 200, 255), 'E'),
        (Color::new(150, 150, 150, 255), 'M'),
        (Color::new(80, 80, 80, 255), 'm'),
    ];
    assert_eq!(
        art(&chart, &key),
        vec![
            "..###EEE", "..###EEE", "..###...", "..###mmm", "..###mmm", "..###...", "..###...",
            "..###...", "..###MMM", "..###MMM", "..###...", "..###...", "..###...", "..###mmm",
            "..###mmm", "..###...", "..###...", "..###...", "..###EEE", "..###EEE",
        ]
    );
}

#[test]
fn render_twice_draws_the_same_picture() {
    let mut chart = small_chart(2);
    frame(&mut chart, 10000, None, ClickingState::Idle);
    chart.render();
    let first = chart.pixels().clone();
    chart.render();
    assert_eq!(&first, chart.pixels());
}
