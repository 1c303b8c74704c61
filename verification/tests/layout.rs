use graph_renderer::layout::{bar_height, BarGrid};

fn grid(width: u32, gap: u32, min_width: u32, count: u32) -> BarGrid {
    BarGrid { width, left: 0, right: 0, axis_width: 0, gap, min_width, count }
}

fn xs(grid: &BarGrid) -> Vec<u32> {
    (0..grid.count).map(|i| grid.x_of(i)).collect()
}

#[test]
fn five_bars_tile_five_hundred_pixels() {
    let grid = grid(500, 10, 0, 5);
    assert_eq!(grid.width_of_bar(), 92);
    assert_eq!(xs(&grid), vec![0, 102, 204, 306, 408]);
    let width = grid.width_of_bar();
    for i in 0..4 {
        assert!(grid.x_of(i) + width + 10 <= grid.x_of(i + 1));
    }
    assert!(grid.x_of(4) + width - grid.x_of(0) <= 500);
}

#[test]
fn bars_start_behind_the_margin_and_the_axis() {
    let grid = BarGrid { width: 560, left: 10, right: 30, axis_width: 20, gap: 10, min_width: 1, count: 3 };
    assert_eq!(grid.width_of_bar(), 160);
    assert_eq!(xs(&grid), vec![30, 200, 370]);
}

#[test]
fn bars_that_do_not_divide_the_plot_evenly() {
    let grid = grid(100, 3, 0, 7);
    // Spread 103, slack 82: bars of 11 pixels at multiples of 103 / 7.
    assert_eq!(grid.width_of_bar(), 11);
    assert_eq!(xs(&grid), vec![0, 14, 29, 44, 58, 73, 88]);
    assert!(88 + 11 <= 100);
}

#[test]
fn bars_are_held_to_the_least_width() {
    let grid = grid(100, 10, 30, 5);
    // Each bar would be 12 pixels wide.
    assert_eq!(grid.width_of_bar(), 30);
    assert_eq!(xs(&grid), vec![0, 22, 44, 66, 88]);
}

#[test]
fn crowded_bars_move_the_first_bar() {
    let crowded = BarGrid { width: 100, left: 10, right: 10, axis_width: 5, gap: 10, min_width: 4, count: 20 };
    assert_eq!(crowded.width_of_bar(), 4);
    assert_eq!(
        xs(&crowded),
        vec![10, 14, 18, 22, 26, 31, 35, 39, 43, 47, 52, 56, 60, 64, 68, 73, 77, 81, 85, 90]
    );
    let just_enough = BarGrid { count: 8, ..crowded };
    assert_eq!(xs(&just_enough), vec![15, 25, 36, 46, 57, 68, 78, 89]);
}

#[test]
fn one_bar_fills_the_plot() {
    let grid = grid(300, 10, 0, 1);
    assert_eq!(grid.width_of_bar(), 300);
    assert_eq!(xs(&grid), vec![0]);
}

#[test]
fn bar_height_is_the_share_of_the_plot() {
    assert_eq!(bar_height(500, 10, 20, 1), 250);
    assert_eq!(bar_height(500, 20, 20, 1), 500);
    assert_eq!(bar_height(500, 5, 20, 1), 125);
    assert_eq!(bar_height(500, 1, 3, 1), 166);
}

#[test]
fn bar_height_is_held_to_the_least_height() {
    assert_eq!(bar_height(500, 0, 20, 8), 8);
    assert_eq!(bar_height(500, -5, 20, 8), 8);
    assert_eq!(bar_height(-100, 10, 20, 8), 8);
    assert_eq!(bar_height(500, 10, 0, 8), 8);
    assert_eq!(bar_height(500, 10, 0, 0), 0);
}
