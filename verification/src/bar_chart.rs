//! The bar chart: one bar per data point, drawn into a pixel buffer.
//!
//! The chart is described by its view, [`BarChartView`]: the data, the
//! layout, and the state of every bar. Each operation is specified as a
//! function from the view before to the view after.

use vstd::prelude::*;
use crate::animation::{
    animation_completed, animation_value, lemma_eased_ratio_bounds, Animation,
};
use crate::axis::{AxisConfig, MAX_SCALE_LINES};
use crate::element::{
    all_wf, advanced, animating_after, deselect_all, deselected, hovered_element,
    lemma_advanced_inv, lemma_advanced_twice, lemma_at_most_one_selected, lemma_step_keeps_box, same_box, same_shape,
    selected_after, selection_is, toggle_selection_at, toggled, update_elements, Element, Style,
};
use crate::layout::{bar_height, full_bar_height, plot_height, scale_length, scaled, BarGrid};
use crate::raster::{
    canvas_fits, clear_background, draw_circle, draw_rect, fill_canvas, fill_circle, fill_rect,
    Color,
};
use crate::types::{ClickingState, Positioning, ScaleLineObject, ValueAxisLayout};
use crate::utils::{clamp_to_u32, clamp_u32, lemma_lerp_bounds, PreAllocatedCollection, UNIT};

verus! {

/// The time a bar takes to grow to its full height.
pub const GROW_TIME: u32 = 500;

/// What every bar adds to the delay that the growth of the bars is spread
/// over.
pub const GROW_STAGGER: u64 = 100;

/// One datum of a bar chart.
#[derive(Debug, Clone)]
pub struct DataPoint {
    pub title: String,
    pub value: i32,
}

impl DataPoint {
    /// A data point with the given title and value.
    pub fn new(title: String, value: i32) -> (point: DataPoint)
        ensures
            point.title == title,
            point.value == value,
    {
        DataPoint { title, value }
    }
}

/// The layout of the bars.
#[derive(Debug, Clone, Copy, PartialEq, Eq, Structural)]
pub struct BarLayout {
    /// The room between two bars.
    pub gap: u32,
    /// The radius of the rounded upper corners of a bar.
    pub bar_corner_radius: u32,
    /// The least width and height of a bar.
    pub min_width: u32,
    pub min_height: u32,
}

/// The layout of a bar chart.
#[derive(Debug, Clone, Copy, PartialEq, Eq, Structural)]
pub struct BarChartLayout {
    pub positioning: Positioning,
    pub bar_layout: BarLayout,
    pub value_axis_layout: ValueAxisLayout,
}

/// The largest of the values and zero.
pub open spec fn max_value(values: Seq<i32>) -> int
    decreases values.len(),
{
    if values.len() == 0 {
        0
    } else {
        let rest = max_value(values.drop_last());
        if values.last() > rest {
            values.last() as int
        } else {
            rest
        }
    }
}

/// The largest value is not negative, fits the range of the values, and no
/// value exceeds it.
pub proof fn lemma_max_value(values: Seq<i32>)
    ensures
        0 <= max_value(values) <= i32::MAX,
        forall|i: int| 0 <= i < values.len() ==> #[trigger] values[i] <= max_value(values),
    decreases values.len(),
{
    if values.len() > 0 {
        lemma_max_value(values.drop_last());
        assert forall|i: int| 0 <= i < values.len() implies #[trigger] values[i] <= max_value(
            values,
        ) by {
            if i < values.len() - 1 {
                assert(values.drop_last()[i] == values[i]);
            }
        }
    }
}

/// The gray of a scale line of the given brightness.
pub open spec fn gray(intensity: u8) -> Color {
    Color { r: intensity, g: intensity, b: intensity, a: 255 }
}

/// Half of `d`, rounded towards zero.
pub open spec fn half(d: int) -> int {
    if d >= 0 {
        d / 2
    } else {
        -((-d) / 2)
    }
}

/// The radius of the rounded corners of a bar: the radius of the layout,
/// but not more than half the width of the bar.
pub open spec fn corner_of(bar: Element, corner_radius: u32) -> int {
    if corner_radius as int <= bar.width / 2 {
        corner_radius as int
    } else {
        (bar.width / 2) as int
    }
}

/// The width at which a bar is drawn: its width times its scale.
pub open spec fn drawn_width(bar: Element) -> int {
    scaled(bar.width as int, bar.scale as int)
}

/// The left edge at which a bar is drawn: a scaled bar stays centred.
pub open spec fn drawn_left(bar: Element) -> int {
    clamp_u32(bar.x - half(drawn_width(bar) - bar.width))
}

/// The buffer after one bar was drawn: a rectangle below the rounded
/// corners, a rectangle between them, and a disc in each upper corner. The
/// discs are cut off at the bottom of the plot.
pub open spec fn with_bar(
    pixels: Seq<u8>,
    width: u32,
    height: u32,
    bottom: u32,
    corner_radius: u32,
    bar: Element,
) -> Seq<u8> {
    let r = corner_of(bar, corner_radius);
    let w = drawn_width(bar);
    let left = drawn_left(bar);
    let body = fill_rect(
        pixels,
        width as int,
        height as int,
        left,
        clamp_u32(bar.y + r),
        w,
        clamp_u32(bar.height - r),
        bar.color,
    );
    let head = fill_rect(
        body,
        width as int,
        height as int,
        clamp_u32(left + r),
        bar.y as int,
        clamp_u32(w - 2 * r),
        if r <= bar.height {
            r
        } else {
            bar.height as int
        },
        bar.color,
    );
    let first = fill_circle(
        head,
        width as int,
        clamp_u32(height - bottom),
        clamp_u32(left + r),
        clamp_u32(bar.y + r),
        r,
        bar.color,
    );
    fill_circle(
        first,
        width as int,
        clamp_u32(height - bottom),
        clamp_u32(left + w - r),
        clamp_u32(bar.y + r),
        r,
        bar.color,
    )
}

/// The buffer after the first `n` bars were drawn, in order.
pub open spec fn with_bars(
    pixels: Seq<u8>,
    width: u32,
    height: u32,
    bottom: u32,
    corner_radius: u32,
    bars: Seq<Element>,
    n: int,
) -> Seq<u8>
    decreases n,
{
    if n <= 0 {
        pixels
    } else {
        with_bar(
            with_bars(pixels, width, height, bottom, corner_radius, bars, n - 1),
            width,
            height,
            bottom,
            corner_radius,
            bars[n - 1],
        )
    }
}

/// The buffer after the first `n` scale lines were drawn, in order, each as
/// a gray rectangle.
pub open spec fn with_scale_lines(
    pixels: Seq<u8>,
    width: u32,
    height: u32,
    lines: Seq<ScaleLineObject>,
    n: int,
) -> Seq<u8>
    decreases n,
{
    if n <= 0 {
        pixels
    } else {
        let line = lines[n - 1];
        fill_rect(
            with_scale_lines(pixels, width, height, lines, n - 1),
            width as int,
            height as int,
            line.x as int,
            line.y as int,
            line.width as int,
            line.height as int,
            gray(line.intensity),
        )
    }
}

/// What a bar chart is made of.
pub struct BarChartView {
    /// The titles and the values of the data points.
    pub titles: Seq<Seq<char>>,
    pub values: Seq<i32>,
    /// The pixel buffer: four bytes per pixel of the canvas.
    pub pixels: Seq<u8>,
    /// The moment from which the bars grow in.
    pub start_timestamp: u64,
    /// The size of the canvas.
    pub width: u32,
    pub height: u32,
    pub background_color: Color,
    /// One bar per data point.
    pub bars: Seq<Element>,
    /// The scale lines of the last frame.
    pub scale_lines: Seq<ScaleLineObject>,
    pub layout: BarChartLayout,
    /// The fixed-point scale of a hovered bar.
    pub hover_scale: u32,
    /// The largest value, which the top of the plot stands for.
    pub max_val: u32,
    /// Whether the last frame left something to animate.
    pub is_animating: bool,
    /// The bar under the pointer and the selected bar.
    pub hovered_bar_index: Option<usize>,
    pub selected_bar_index: Option<usize>,
    /// Whether the data was replaced since the last frame.
    pub updated_data: bool,
}

impl BarChartView {
    /// What holds of every chart: there is one bar and one title per value,
    /// the buffer covers the canvas, which is not empty, the largest value
    /// is that of the data, and at most the bar that is recorded as selected
    /// is selected.
    pub open spec fn inv(self) -> bool {
        &&& self.bars.len() == self.values.len()
        &&& self.titles.len() == self.values.len()
        &&& self.values.len() <= u32::MAX
        &&& self.width > 0
        &&& self.height > 0
        &&& self.pixels.len() == self.width * self.height * 4
        &&& self.max_val == max_value(self.values)
        &&& all_wf(self.bars)
        &&& selection_is(self.bars, self.selected_bar_index)
    }

    /// The room that the bars share.
    pub open spec fn grid(self) -> BarGrid {
        BarGrid {
            width: self.width,
            left: self.layout.positioning.left,
            right: self.layout.positioning.right,
            axis_width: self.layout.value_axis_layout.value_axis_width,
            gap: self.layout.bar_layout.gap,
            min_width: self.layout.bar_layout.min_width,
            count: self.values.len() as u32,
        }
    }

    /// What the scale lines depend on.
    pub open spec fn axis(self) -> AxisConfig {
        AxisConfig {
            width: self.width,
            height: self.height,
            top: self.layout.positioning.top,
            bottom: self.layout.positioning.bottom,
            max_value: self.max_val,
            axis_width: self.layout.value_axis_layout.value_axis_width,
            smallest_scale: self.layout.value_axis_layout.value_axis_smallest_scale,
            min_pixel_distance: self.layout.value_axis_layout.value_axis_min_pixel_distance,
            major_intensity: 150,
            minor_intensity: 80,
            edge_intensity: 200,
        }
    }

    /// The colors of the bars.
    pub open spec fn style(self) -> Style {
        Style {
            color: Color { r: 255, g: 255, b: 255, a: 255 },
            hover_color: Color { r: 150, g: 150, b: 150, a: 255 },
            selected_color: Color { r: 100, g: 100, b: 255, a: 255 },
            hover_scale: self.hover_scale,
        }
    }

    /// Whether a frame can be laid out: the scale lines fit the room that
    /// was set aside for them.
    pub open spec fn lines_fit(self) -> bool {
        self.axis().line_count() <= MAX_SCALE_LINES
    }

    /// The height of the plot.
    pub open spec fn plot_height(self) -> int {
        plot_height(
            self.height,
            self.layout.positioning.top,
            self.layout.positioning.bottom,
        )
    }

    /// The whole delay that the growth of the bars is spread over.
    pub open spec fn delay_budget(self) -> int {
        GROW_STAGGER * self.bars.len()
    }

    /// How long bar `i` waits before it begins to grow: the bars cascade in,
    /// each later than the one before it by an equal share of the budget.
    pub open spec fn grow_delay(self, i: int) -> int {
        (self.delay_budget() * i) / (self.bars.len() as int)
    }

    /// Bar `i` waits `i` times the stagger.
    pub proof fn lemma_grow_delay(self, i: int)
        requires
            0 <= i < self.bars.len(),
        ensures
            self.grow_delay(i) == GROW_STAGGER * i,
    {
        let n = self.bars.len() as int;
        assert(self.delay_budget() * i == n * (GROW_STAGGER * i)) by (nonlinear_arith)
            requires
                self.delay_budget() == GROW_STAGGER * n,
        ;
        vstd::arithmetic::div_mod::lemma_div_multiples_vanish(GROW_STAGGER * i, n);
    }

    /// The time since bar `i` began to grow; negative while its delay is
    /// pending.
    pub open spec fn grow_elapsed(self, i: int, now: u64) -> int {
        now - self.start_timestamp - self.grow_delay(i)
    }

    /// The fraction of its full height that bar `i` has reached: it grows
    /// from the fraction it started with to one.
    pub open spec fn grow_fraction(self, i: int, now: u64) -> int {
        animation_value(
            self.grow_elapsed(i, now),
            GROW_TIME as int,
            self.bars[i].start_scale_t as int,
            UNIT as int,
        )
    }

    /// Whether bar `i` has grown to its full height.
    pub open spec fn grown(self, i: int, now: u64) -> bool {
        animation_completed(self.grow_elapsed(i, now), GROW_TIME as int)
    }

    /// The height of bar `i` once it is fully grown.
    pub open spec fn full_height(self, i: int) -> int {
        full_bar_height(
            self.plot_height(),
            self.values[i] as int,
            self.max_val as int,
            self.layout.bar_layout.min_height as int,
        )
    }

    /// The height of bar `i` at the moment `now`.
    pub open spec fn bar_height(self, i: int, now: u64) -> int {
        scaled(self.full_height(i), self.grow_fraction(i, now))
    }

    /// Bar `i` in its place at the moment `now`: the bars stand side by side
    /// on the bottom of the plot.
    pub open spec fn placed_bar(self, i: int, now: u64) -> Element {
        Element {
            x: self.grid().bar_x(i) as u32,
            y: clamp_u32(
                self.height - self.layout.positioning.bottom - self.bar_height(i, now),
            ) as u32,
            width: self.grid().bar_width() as u32,
            height: self.bar_height(i, now) as u32,
            ..self.bars[i]
        }
    }

    /// The bars in their places at the moment `now`.
    pub open spec fn placed(self, now: u64) -> Seq<Element> {
        Seq::new(self.bars.len(), |i: int| self.placed_bar(i, now))
    }

    /// Whether a bar is still growing at the moment `now`.
    pub open spec fn growing(self, now: u64) -> bool {
        exists|i: int| 0 <= i < self.bars.len() && !#[trigger] self.grown(i, now)
    }

    /// The chart after a frame at the moment `now`, with the pointer at the
    /// given place (if it is over the canvas) and its button in the given
    /// state.
    ///
    /// The scale lines are laid out anew. The bars are put in their places,
    /// then take their step: the first bar under the pointer is hovered, a
    /// released button toggles its selection or, released on no bar,
    /// deselects all. The chart is animating if a bar is still growing, if
    /// an animation of a bar has not ended, if the button was released on no
    /// bar, or if the data was replaced since the last frame.
    pub open spec fn updated(
        self,
        now: u64,
        pointer_x: Option<u32>,
        pointer_y: Option<u32>,
        click: ClickingState,
    ) -> BarChartView {
        let placed = self.placed(now);
        BarChartView {
            scale_lines: self.axis().scale_lines(),
            bars: advanced(placed, pointer_x, pointer_y, click, now, self.style()),
            hovered_bar_index: match hovered_element(placed, pointer_x, pointer_y) {
                Some(h) => Some(h as usize),
                None => None,
            },
            selected_bar_index: selected_after(
                placed,
                self.selected_bar_index,
                pointer_x,
                pointer_y,
                click,
            ),
            is_animating: self.growing(now) || animating_after(
                placed,
                pointer_x,
                pointer_y,
                click,
                now,
                self.style(),
            ) || self.updated_data,
            updated_data: false,
            ..self
        }
    }

    /// The chart after it was drawn: the background, then the scale lines,
    /// then the bars.
    pub open spec fn rendered(self) -> BarChartView {
        let cleared = fill_canvas(
            self.pixels,
            self.width as int,
            self.height as int,
            self.background_color,
        );
        let lined = with_scale_lines(
            cleared,
            self.width,
            self.height,
            self.scale_lines,
            self.scale_lines.len() as int,
        );
        BarChartView {
            pixels: with_bars(
                lined,
                self.width,
                self.height,
                self.layout.positioning.bottom,
                self.layout.bar_layout.bar_corner_radius,
                self.bars,
                self.bars.len() as int,
            ),
            ..self
        }
    }

    /// The chart with a canvas of another size: the buffer is cleared to
    /// zeros, all else stays.
    pub open spec fn resized(self, width: u32, height: u32) -> BarChartView {
        BarChartView {
            width,
            height,
            pixels: Seq::new((width * height * 4) as nat, |i: int| 0u8),
            ..self
        }
    }

    /// The fraction of the plot height that a bar of the given height
    /// covers; zero where there is no plot.
    pub open spec fn height_fraction(self, bar_height: u32) -> int {
        if self.plot_height() <= 0 {
            0
        } else {
            clamp_u32((bar_height * UNIT) / self.plot_height())
        }
    }

    /// The bar at place `i` after the data was replaced at the moment
    /// `timestamp`. A bar that takes the place of an earlier one keeps its
    /// selection and grows on from the fraction of the plot height that the
    /// earlier bar covered; a bar in a new place starts afresh.
    pub open spec fn carried_bar(self, i: int, timestamp: u64) -> Element {
        if i < self.bars.len() {
            Element {
                start_scale_t: self.height_fraction(self.bars[i].height) as u32,
                selected_state: self.bars[i].selected_state,
                ..Element::fresh(timestamp)
            }
        } else {
            Element::fresh(timestamp)
        }
    }

    /// The chart after its data was replaced at the moment `timestamp`. The
    /// growth of the bars starts again, the selection stays with its place
    /// if the place is still there, and the chart is animating.
    pub open spec fn with_data(
        self,
        titles: Seq<Seq<char>>,
        values: Seq<i32>,
        timestamp: u64,
    ) -> BarChartView {
        BarChartView {
            titles,
            values,
            start_timestamp: timestamp,
            bars: Seq::new(values.len(), |i: int| self.carried_bar(i, timestamp)),
            max_val: max_value(values) as u32,
            hovered_bar_index: None,
            selected_bar_index: match self.selected_bar_index {
                Some(s) => if s < values.len() {
                    Some(s)
                } else {
                    None
                },
                None => None,
            },
            is_animating: true,
            updated_data: true,
            ..self
        }
    }
}

impl BarChartView {
    /// At most one bar is selected.
    pub proof fn lemma_single_selection(self, i: int, j: int)
        requires
            self.inv(),
            0 <= i < self.bars.len(),
            0 <= j < self.bars.len(),
            self.bars[i].selected_state.is_selected(),
            self.bars[j].selected_state.is_selected(),
        ensures
            i == j,
    {
        lemma_at_most_one_selected(self.bars, self.selected_bar_index, i, j);
    }

    /// A frame keeps what holds of every chart, and with it the selection in
    /// order: whatever the pointer does, at most one bar is selected.
    pub proof fn lemma_updated_inv(
        self,
        now: u64,
        pointer_x: Option<u32>,
        pointer_y: Option<u32>,
        click: ClickingState,
    )
        requires
            self.inv(),
        ensures
            self.updated(now, pointer_x, pointer_y, click).inv(),
    {
        let placed = self.placed(now);
        assert forall|i: int| 0 <= i < placed.len() implies (#[trigger] placed[i]).wf()
            && placed[i].selected_state == self.bars[i].selected_state by {
            assert(self.bars[i].wf());
        }
        if let Some(s) = self.selected_bar_index {
            assert(placed[s as int].selected_state.is_selected());
        }
        lemma_advanced_inv(
            placed,
            self.selected_bar_index,
            pointer_x,
            pointer_y,
            click,
            now,
            self.style(),
        );
    }

    /// New data keeps what holds of every chart: the selection stays in
    /// order when bars come and go.
    pub proof fn lemma_with_data_inv(
        self,
        titles: Seq<Seq<char>>,
        values: Seq<i32>,
        timestamp: u64,
    )
        requires
            self.inv(),
            titles.len() == values.len(),
            values.len() <= u32::MAX,
        ensures
            self.with_data(titles, values, timestamp).inv(),
    {
        lemma_max_value(values);
        let after = self.with_data(titles, values, timestamp);
        assert forall|i: int| 0 <= i < after.bars.len() implies (#[trigger] after.bars[i]).wf()
            && (after.bars[i].selected_state.is_selected() ==> i < self.bars.len()
            && self.bars[i].selected_state.is_selected()) by {}
    }

    /// A frame leaves every bar where the layout puts it at that moment.
    pub proof fn lemma_update_places(
        self,
        now: u64,
        pointer_x: Option<u32>,
        pointer_y: Option<u32>,
        click: ClickingState,
    )
        ensures
            ({
                let once = self.updated(now, pointer_x, pointer_y, click);
                &&& once.bars.len() == self.bars.len()
                &&& once.placed(now) == once.bars
                &&& forall|i: int|
                    0 <= i < self.bars.len() ==> same_box(
                        #[trigger] once.bars[i],
                        self.placed_bar(i, now),
                    )
            }),
    {
        let once = self.updated(now, pointer_x, pointer_y, click);
        let placed = self.placed(now);
        let hovered = hovered_element(placed, pointer_x, pointer_y);
        assert forall|i: int| 0 <= i < self.bars.len() implies same_box(
            #[trigger] once.bars[i],
            self.placed_bar(i, now),
        ) && once.placed_bar(i, now) == once.bars[i] by {
            lemma_step_keeps_box(placed[i], hovered == Some(i), click, now, self.style());
        }
        assert(once.placed(now) =~= once.bars);
    }

    /// A second frame at the same moment, with the same pointer and button,
    /// lays out the same geometry: the same scale lines, and every bar in
    /// the same place and at the same scale, with the same bar hovered.
    /// Unless the button was just released, which toggles the selection once
    /// more, the bars and the selection stay as they were altogether.
    pub proof fn lemma_update_twice(
        self,
        now: u64,
        pointer_x: Option<u32>,
        pointer_y: Option<u32>,
        click: ClickingState,
    )
        ensures
            ({
                let once = self.updated(now, pointer_x, pointer_y, click);
                let twice = once.updated(now, pointer_x, pointer_y, click);
                &&& twice.scale_lines == once.scale_lines
                &&& twice.hovered_bar_index == once.hovered_bar_index
                &&& twice.bars.len() == once.bars.len()
                &&& forall|i: int|
                    0 <= i < once.bars.len() ==> same_shape(#[trigger] twice.bars[i], once.bars[i])
                &&& !(click is JustReleased) ==> twice.bars == once.bars
                    && twice.selected_bar_index == once.selected_bar_index
            }),
    {
        self.lemma_update_places(now, pointer_x, pointer_y, click);
        lemma_advanced_twice(self.placed(now), pointer_x, pointer_y, click, now, self.style());
    }

    /// A bar that has grown stands at its full height: its share of the plot
    /// height, or the least height. A bar whose growth has not begun stands at
    /// the fraction of its full height that it starts from.
    pub proof fn lemma_bar_heights(self, i: int, now: u64)
        requires
            0 <= i < self.bars.len(),
        ensures
            self.grown(i, now) ==> self.bar_height(i, now) == self.full_height(i),
            self.grow_elapsed(i, now) < 0 ==> self.bar_height(i, now) == scaled(
                self.full_height(i),
                self.bars[i].start_scale_t as int,
            ),
    {
        let full = self.full_height(i);
        assert((full * (UNIT as int)) / (UNIT as int) == full) by (nonlinear_arith)
            requires
                UNIT == 65536,
        ;
    }

    /// After the data was replaced the chart is animating, and every bar
    /// that took the place of an earlier one starts to grow from the
    /// fraction of the plot height that the earlier bar covered: until its
    /// growth begins, that is the fraction it shows.
    pub proof fn lemma_data_update_continuity(
        self,
        titles: Seq<Seq<char>>,
        values: Seq<i32>,
        timestamp: u64,
        i: int,
        now: u64,
    )
        requires
            0 <= i < self.bars.len(),
            i < values.len(),
            now <= timestamp + self.with_data(titles, values, timestamp).grow_delay(i),
        ensures
            self.with_data(titles, values, timestamp).is_animating,
            self.with_data(titles, values, timestamp).bars[i].start_scale_t
                == self.height_fraction(self.bars[i].height),
            self.with_data(titles, values, timestamp).grow_fraction(i, now)
                == self.height_fraction(self.bars[i].height),
    {
        lemma_eased_ratio_bounds(0, GROW_TIME as int);
        lemma_lerp_bounds(self.height_fraction(self.bars[i].height), UNIT as int, 0);
    }
}

/// A bar chart with its pixel buffer.
pub struct BarChart {
    data: Vec<DataPoint>,
    pixels: Vec<u8>,
    start_timestamp: u64,
    width: u32,
    height: u32,
    background_color: Color,
    bars: Vec<Element>,
    scale_lines: PreAllocatedCollection<ScaleLineObject>,
    layout: BarChartLayout,
    hover_scale: u32,
    max_val: u32,
    is_animating: bool,
    hovered_bar_index: Option<usize>,
    selected_bar_index: Option<usize>,
    updated_data: bool,
}

/// The titles of data points.
pub open spec fn titles_of(data: Seq<DataPoint>) -> Seq<Seq<char>> {
    Seq::new(data.len(), |i: int| data[i].title@)
}

/// The values of data points.
pub open spec fn values_of(data: Seq<DataPoint>) -> Seq<i32> {
    Seq::new(data.len(), |i: int| data[i].value)
}

impl View for BarChart {
    type V = BarChartView;

    closed spec fn view(&self) -> BarChartView {
        BarChartView {
            titles: titles_of(self.data@),
            values: values_of(self.data@),
            pixels: self.pixels@,
            start_timestamp: self.start_timestamp,
            width: self.width,
            height: self.height,
            background_color: self.background_color,
            bars: self.bars@,
            scale_lines: self.scale_lines@,
            layout: self.layout,
            hover_scale: self.hover_scale,
            max_val: self.max_val,
            is_animating: self.is_animating,
            hovered_bar_index: self.hovered_bar_index,
            selected_bar_index: self.selected_bar_index,
            updated_data: self.updated_data,
        }
    }
}

/// The largest of the values of the data points and zero.
fn largest_value(data: &Vec<DataPoint>) -> (max: u32)
    ensures
        max as int == max_value(values_of(data@)),
{
    let ghost values = values_of(data@);
    let mut max: u32 = 0;
    let mut i: usize = 0;
    while i < data.len()
        invariant
            i <= data@.len(),
            values == values_of(data@),
            max as int == max_value(values.take(i as int)),
        decreases data@.len() - i,
    {
        proof {
            assert(values.take(i as int + 1).drop_last() =~= values.take(i as int));
            lemma_max_value(values.take(i as int));
        }
        let value = data[i].value;
        if value > 0 && value as u32 > max {
            max = value as u32;
        }
        i += 1;
    }
    assert(values.take(data@.len() as int) =~= values);
    max
}

/// Fresh bars, one per data point, that keep the selection and the height
/// fraction of the bars whose places they take.
fn carry_bars(
    earlier: &Vec<Element>,
    count: usize,
    plot_height: i64,
    timestamp: u64,
    Ghost(view): Ghost<BarChartView>,
) -> (bars: Vec<Element>)
    requires
        view.bars == earlier@,
        view.plot_height() == plot_height,
    ensures
        bars@ == Seq::new(count as nat, |i: int| view.carried_bar(i, timestamp)),
        all_wf(bars@),
{
    let mut bars: Vec<Element> = Vec::with_capacity(count);
    let mut i: usize = 0;
    while i < count
        invariant
            i <= count,
            bars@.len() == i,
            view.bars == earlier@,
            view.plot_height() == plot_height,
            forall|j: int| 0 <= j < i ==> #[trigger] bars@[j] == view.carried_bar(j, timestamp),
            all_wf(bars@),
        decreases count - i,
    {
        let mut bar = Element::new(timestamp);
        if i < earlier.len() {
            let old_bar = earlier[i];
            bar.selected_state = old_bar.selected_state;
            bar.start_scale_t = if plot_height <= 0 {
                0
            } else {
                clamp_to_u32((old_bar.height as i128 * UNIT as i128) / plot_height as i128)
            };
        }
        bars.push(bar);
        i += 1;
    }
    assert(bars@ =~= Seq::new(count as nat, |i: int| view.carried_bar(i, timestamp)));
    bars
}

/// Draws one bar: see [`with_bar`].
fn draw_bar(
    pixels: &mut Vec<u8>,
    width: u32,
    height: u32,
    bottom: u32,
    corner_radius: u32,
    bar: &Element,
)
    requires
        canvas_fits(old(pixels)@, width as int, height as int),
    ensures
        final(pixels)@ == with_bar(old(pixels)@, width, height, bottom, corner_radius, *bar),
        final(pixels)@.len() == old(pixels)@.len(),
{
    let r: u32 = if corner_radius <= bar.width / 2 {
        corner_radius
    } else {
        bar.width / 2
    };
    let w: u32 = scale_length(bar.width, bar.scale);
    let grown: i128 = w as i128 - bar.width as i128;
    let shift: i128 = if grown >= 0 {
        grown / 2
    } else {
        -((-grown) / 2)
    };
    let left: u32 = clamp_to_u32(bar.x as i128 - shift);
    let plot_bottom: u32 = clamp_to_u32(height as i128 - bottom as i128);
    let below: u32 = clamp_to_u32(bar.y as i128 + r as i128);
    assert(canvas_fits(pixels@, width as int, plot_bottom as int)) by (nonlinear_arith)
        requires
            canvas_fits(pixels@, width as int, height as int),
            0 <= plot_bottom <= height,
            width >= 0,
    ;
    draw_rect(
        pixels,
        width,
        height,
        left,
        below,
        w,
        clamp_to_u32(bar.height as i128 - r as i128),
        &bar.color,
    );
    draw_rect(
        pixels,
        width,
        height,
        clamp_to_u32(left as i128 + r as i128),
        bar.y,
        clamp_to_u32(w as i128 - 2 * r as i128),
        if r <= bar.height {
            r
        } else {
            bar.height
        },
        &bar.color,
    );
    draw_circle(
        pixels,
        width,
        plot_bottom,
        clamp_to_u32(left as i128 + r as i128),
        below,
        r,
        &bar.color,
    );
    draw_circle(
        pixels,
        width,
        plot_bottom,
        clamp_to_u32(left as i128 + w as i128 - r as i128),
        below,
        r,
        &bar.color,
    );
}

impl BarChart {
    /// What holds of every chart that this module hands out.
    pub closed spec fn wf(&self) -> bool {
        &&& self@.inv()
        &&& self.scale_lines.wf()
        &&& self.scale_lines.capacity() == MAX_SCALE_LINES
    }

    /// A chart holds what its view says of every chart.
    pub proof fn lemma_wf_inv(&self)
        requires
            self.wf(),
        ensures
            self@.inv(),
            self@.scale_lines.len() <= MAX_SCALE_LINES,
    {
        self.scale_lines.lemma_len_within_capacity();
    }

    /// A chart of the given data on a canvas of the given size. The bars
    /// begin to grow at `start_timestamp`; no frame has been laid out yet.
    pub fn new(
        data: Vec<DataPoint>,
        start_timestamp: u64,
        width: u32,
        height: u32,
        background_color: Color,
        layout: BarChartLayout,
        hover_scale: u32,
    ) -> (chart: BarChart)
        requires
            data@.len() <= u32::MAX,
            width > 0,
            height > 0,
            width * height * 4 <= usize::MAX,
        ensures
            chart.wf(),
            chart@ == (BarChartView {
                titles: titles_of(data@),
                values: values_of(data@),
                pixels: Seq::new((width * height * 4) as nat, |i: int| 0u8),
                start_timestamp,
                width,
                height,
                background_color,
                bars: Seq::new(data@.len(), |i: int| Element::fresh(start_timestamp)),
                scale_lines: Seq::empty(),
                layout,
                hover_scale,
                max_val: max_value(values_of(data@)) as u32,
                is_animating: true,
                hovered_bar_index: None,
                selected_bar_index: None,
                updated_data: false,
            }),
    {
        assert(width * height * 4 == (width * height) * 4) by (nonlinear_arith);
        assert(width * height <= width * height * 4) by (nonlinear_arith)
            requires
                width > 0,
                height > 0,
        ;
        let size: usize = width as usize * height as usize * 4;
        let pixels: Vec<u8> = vec![0u8; size];
        let max_val = largest_value(&data);
        let mut bars: Vec<Element> = Vec::with_capacity(data.len());
        let mut i: usize = 0;
        while i < data.len()
            invariant
                i <= data@.len(),
                bars@.len() == i,
                forall|j: int| 0 <= j < i ==> #[trigger] bars@[j] == Element::fresh(start_timestamp),
            decreases data@.len() - i,
        {
            bars.push(Element::new(start_timestamp));
            i += 1;
        }
        let scale_lines = PreAllocatedCollection::new(
            ScaleLineObject { x: 0, y: 0, width: 0, height: 0, intensity: 0, value: 0 },
            0,
            MAX_SCALE_LINES,
        );
        let chart = BarChart {
            data,
            pixels,
            start_timestamp,
            width,
            height,
            background_color,
            bars,
            scale_lines,
            layout,
            hover_scale,
            max_val,
            is_animating: true,
            hovered_bar_index: None,
            selected_bar_index: None,
            updated_data: false,
        };
        proof {
            assert(chart@.pixels =~= Seq::new((width * height * 4) as nat, |i: int| 0u8));
            assert(chart@.bars =~= Seq::new(data@.len(), |i: int| Element::fresh(start_timestamp)));
            assert(chart@.scale_lines =~= Seq::empty());
        }
        chart
    }

    /// The pixel buffer.
    pub fn pixels(&self) -> (pixels: &Vec<u8>)
        ensures
            pixels@ == self@.pixels,
    {
        &self.pixels
    }

    /// The width of the canvas in pixels.
    pub fn get_width(&self) -> (width: u32)
        ensures
            width == self@.width,
    {
        self.width
    }

    /// The height of the canvas in pixels.
    pub fn get_height(&self) -> (height: u32)
        ensures
            height == self@.height,
    {
        self.height
    }

    /// Gives the canvas another size and clears the buffer.
    pub fn resize(&mut self, width: u32, height: u32)
        requires
            old(self).wf(),
            width > 0,
            height > 0,
            width * height * 4 <= usize::MAX,
        ensures
            final(self).wf(),
            final(self)@ == old(self)@.resized(width, height),
    {
        assert(width * height * 4 == (width * height) * 4) by (nonlinear_arith);
        assert(width * height <= width * height * 4) by (nonlinear_arith)
            requires
                width > 0,
                height > 0,
        ;
        self.width = width;
        self.height = height;
        let size: usize = width as usize * height as usize * 4;
        self.pixels = vec![0u8; size];
        proof {
            assert(self@.pixels =~= Seq::new((width * height * 4) as nat, |i: int| 0u8));
        }
    }

    /// Replaces the data at the moment `timestamp`: see
    /// [`BarChartView::with_data`].
    pub fn update_data(&mut self, data: Vec<DataPoint>, timestamp: u64)
        requires
            old(self).wf(),
            data@.len() <= u32::MAX,
        ensures
            final(self).wf(),
            final(self)@ == old(self)@.with_data(titles_of(data@), values_of(data@), timestamp),
    {
        let ghost before = self@;
        let plot_height: i64 = self.height as i64 - self.layout.positioning.top as i64
            - self.layout.positioning.bottom as i64;
        let bars = carry_bars(&self.bars, data.len(), plot_height, timestamp, Ghost(before));
        self.max_val = largest_value(&data);
        self.selected_bar_index = match self.selected_bar_index {
            Some(s) => if s < data.len() {
                Some(s)
            } else {
                None
            },
            None => None,
        };
        self.hovered_bar_index = None;
        self.data = data;
        self.bars = bars;
        self.start_timestamp = timestamp;
        self.is_animating = true;
        self.updated_data = true;
        proof {
            lemma_max_value(values_of(self.data@));
        }
    }

    /// The number of bars.
    pub fn get_bars_len(&self) -> (len: usize)
        requires
            self.wf(),
        ensures
            len == self@.bars.len(),
    {
        self.bars.len()
    }

    /// The left edge of the bar at `index`, as the last frame placed it.
    pub fn get_bar_x_at(&self, index: usize) -> (x: u32)
        requires
            self.wf(),
            index < self@.bars.len(),
        ensures
            x == self@.bars[index as int].x,
    {
        self.bars[index].x
    }

    /// The upper edge of the bar at `index`, as the last frame placed it.
    pub fn get_bar_y_at(&self, index: usize) -> (y: u32)
        requires
            self.wf(),
            index < self@.bars.len(),
        ensures
            y == self@.bars[index as int].y,
    {
        self.bars[index].y
    }

    /// The width of the bar at `index`, as the last frame placed it.
    pub fn get_bar_width_at(&self, index: usize) -> (width: u32)
        requires
            self.wf(),
            index < self@.bars.len(),
        ensures
            width == self@.bars[index as int].width,
    {
        self.bars[index].width
    }

    /// The height of the bar at `index`, as the last frame placed it.
    pub fn get_bar_height_at(&self, index: usize) -> (height: u32)
        requires
            self.wf(),
            index < self@.bars.len(),
        ensures
            height == self@.bars[index as int].height,
    {
        self.bars[index].height
    }

    /// The title of the data point at `index`.
    pub fn get_bar_title_at(&self, index: usize) -> (title: String)
        requires
            self.wf(),
            index < self@.bars.len(),
        ensures
            title@ == self@.titles[index as int],
    {
        self.data[index].title.clone()
    }

    /// The bar at `index` with its place, its colors and its states.
    pub fn get_bar_at(&self, index: usize) -> (bar: Element)
        requires
            self.wf(),
            index < self@.bars.len(),
        ensures
            bar == self@.bars[index as int],
    {
        self.bars[index]
    }

    /// The number of scale lines of the last frame.
    pub fn get_scale_lines_count(&self) -> (count: u32)
        requires
            self.wf(),
        ensures
            count == self@.scale_lines.len(),
    {
        proof {
            self.scale_lines.lemma_len_within_capacity();
        }
        self.scale_lines.len() as u32
    }

    /// The left end of the scale line at `index`.
    pub fn get_scale_line_x_at(&self, index: usize) -> (x: u32)
        requires
            self.wf(),
            index < self@.scale_lines.len(),
        ensures
            x == self@.scale_lines[index as int].x,
    {
        self.scale_lines.get(index).x
    }

    /// The upper edge of the scale line at `index`.
    pub fn get_scale_line_y_at(&self, index: usize) -> (y: u32)
        requires
            self.wf(),
            index < self@.scale_lines.len(),
        ensures
            y == self@.scale_lines[index as int].y,
    {
        self.scale_lines.get(index).y
    }

    /// The data value that the scale line at `index` stands for.
    pub fn get_scale_line_value_at(&self, index: usize) -> (value: u32)
        requires
            self.wf(),
            index < self@.scale_lines.len(),
        ensures
            value == self@.scale_lines[index as int].value,
    {
        self.scale_lines.get(index).value
    }

    /// Whether the last frame left something to animate.
    pub fn get_is_animating(&self) -> (animating: bool)
        ensures
            animating == self@.is_animating,
    {
        self.is_animating
    }

    /// The index of the selected bar, if one is selected.
    pub fn get_selected_bar_index(&self) -> (selected: Option<usize>)
        ensures
            selected == self@.selected_bar_index,
    {
        self.selected_bar_index
    }

    /// The index of the bar under the pointer in the last frame.
    pub fn get_hovered_bar_index(&self) -> (hovered: Option<usize>)
        ensures
            hovered == self@.hovered_bar_index,
    {
        self.hovered_bar_index
    }

    /// The room that the bars share.
    fn grid(&self) -> (grid: BarGrid)
        requires
            self@.values.len() <= u32::MAX,
        ensures
            grid == self@.grid(),
    {
        BarGrid {
            width: self.width,
            left: self.layout.positioning.left,
            right: self.layout.positioning.right,
            axis_width: self.layout.value_axis_layout.value_axis_width,
            gap: self.layout.bar_layout.gap,
            min_width: self.layout.bar_layout.min_width,
            count: self.data.len() as u32,
        }
    }

    /// What the scale lines depend on.
    fn axis(&self) -> (axis: AxisConfig)
        ensures
            axis == self@.axis(),
    {
        AxisConfig {
            width: self.width,
            height: self.height,
            top: self.layout.positioning.top,
            bottom: self.layout.positioning.bottom,
            max_value: self.max_val,
            axis_width: self.layout.value_axis_layout.value_axis_width,
            smallest_scale: self.layout.value_axis_layout.value_axis_smallest_scale,
            min_pixel_distance: self.layout.value_axis_layout.value_axis_min_pixel_distance,
            major_intensity: 150,
            minor_intensity: 80,
            edge_intensity: 200,
        }
    }

    /// The colors of the bars.
    fn style(&self) -> (style: Style)
        ensures
            style == self@.style(),
    {
        Style {
            color: Color { r: 255, g: 255, b: 255, a: 255 },
            hover_color: Color { r: 150, g: 150, b: 150, a: 255 },
            selected_color: Color { r: 100, g: 100, b: 255, a: 255 },
            hover_scale: self.hover_scale,
        }
    }

    /// Whether the scale lines of the next frame fit the room that was set
    /// aside for them. [`BarChart::update`] may only be called if they do.
    pub fn lines_fit(&self) -> (fit: bool)
        ensures
            fit == self@.lines_fit(),
    {
        self.axis().count_lines() <= MAX_SCALE_LINES as u64
    }

    /// Lays out the scale lines of the frame.
    fn calculate_scale_lines(&mut self)
        requires
            old(self).wf(),
            old(self)@.lines_fit(),
        ensures
            final(self).wf(),
            final(self)@ == (BarChartView {
                scale_lines: old(self)@.axis().scale_lines(),
                ..old(self)@
            }),
    {
        let axis = self.axis();
        axis.calculate_scale_lines(&mut self.scale_lines);
    }

    /// Puts the bars in their places at the moment `now` and tells whether
    /// one of them is still growing.
    fn place_bars(&mut self, now: u64) -> (growing: bool)
        requires
            old(self).wf(),
        ensures
            final(self).wf(),
            final(self)@ == (BarChartView { bars: old(self)@.placed(now), ..old(self)@ }),
            growing == old(self)@.growing(now),
    {
        let ghost before = *self;
        let ghost view = self@;
        let count = self.bars.len();
        let grid = self.grid();
        let bottom = self.layout.positioning.bottom;
        let plot_height: i64 = self.height as i64 - self.layout.positioning.top as i64
            - bottom as i64;
        let width: u32 = if count > 0 {
            grid.width_of_bar()
        } else {
            0
        };
        let mut growing = false;
        let mut i: usize = 0;
        while i < count
            invariant
                i <= count,
                count == view.bars.len(),
                before.wf(),
                view == before@,
                grid == view.grid(),
                bottom == view.layout.positioning.bottom,
                plot_height == view.plot_height(),
                count > 0 ==> width == grid.bar_width(),
                *self == (BarChart { bars: self.bars, ..before }),
                self.bars@.len() == count,
                forall|j: int| 0 <= j < i ==> #[trigger] self.bars@[j] == view.placed_bar(j, now),
                forall|j: int| i <= j < count ==> #[trigger] self.bars@[j] == view.bars[j],
                growing == exists|j: int| 0 <= j < i && !#[trigger] view.grown(j, now),
            decreases count - i,
        {
            proof {
                view.lemma_grow_delay(i as int);
            }
            let mut bar = self.bars[i];
            let grow = Animation::new(
                now,
                self.start_timestamp,
                GROW_TIME,
                GROW_STAGGER * i as u64,
                bar.start_scale_t,
                UNIT,
            );
            let full = bar_height(
                plot_height,
                self.data[i].value,
                self.max_val,
                self.layout.bar_layout.min_height,
            );
            let height = scale_length(full, grow.get_current());
            bar.x = grid.x_of(i as u32);
            bar.y = clamp_to_u32(self.height as i128 - bottom as i128 - height as i128);
            bar.width = width;
            bar.height = height;
            let ghost growing_before = growing;
            if !grow.is_completed() {
                growing = true;
            }
            self.bars[i] = bar;
            proof {
                assert(view.values[i as int] == self.data@[i as int].value);
                assert(bar == view.placed_bar(i as int, now));
                if view.grown(i as int, now) {
                    if growing {
                        let j = choose|j: int| 0 <= j < i && !#[trigger] view.grown(j, now);
                        assert(0 <= j < i + 1 && !view.grown(j, now));
                    }
                } else {
                    assert(0 <= i < i + 1 && !view.grown(i as int, now));
                }
            }
            i += 1;
        }
        proof {
            assert(self.bars@ =~= view.placed(now));
            assert forall|j: int| 0 <= j < count implies (#[trigger] self.bars@[j]).wf()
                && self.bars@[j].selected_state == view.bars[j].selected_state by {
                assert(view.bars[j].wf());
            }
        }
        growing
    }

    /// Lays out the bars of the frame and lets them take their step.
    fn calculate_bars(
        &mut self,
        timestamp: u64,
        pointer_x: Option<u32>,
        pointer_y: Option<u32>,
        clicking_state: ClickingState,
    )
        requires
            old(self).wf(),
        ensures
            final(self).wf(),
            final(self)@ == (BarChartView {
                scale_lines: old(self)@.scale_lines,
                ..old(self)@.updated(timestamp, pointer_x, pointer_y, clicking_state)
            }),
    {
        let growing = self.place_bars(timestamp);
        let style = self.style();
        let outcome = update_elements(
            &mut self.bars,
            self.selected_bar_index,
            pointer_x,
            pointer_y,
            clicking_state,
            timestamp,
            &style,
        );
        self.hovered_bar_index = outcome.hovered;
        self.selected_bar_index = outcome.selected;
        self.is_animating = growing || outcome.animating || self.updated_data;
        self.updated_data = false;
    }

    /// Computes one frame: see [`BarChartView::updated`].
    pub fn update(
        &mut self,
        timestamp: u64,
        pointer_x: Option<u32>,
        pointer_y: Option<u32>,
        clicking_state: ClickingState,
    )
        requires
            old(self).wf(),
            old(self)@.lines_fit(),
        ensures
            final(self).wf(),
            final(self)@ == old(self)@.updated(timestamp, pointer_x, pointer_y, clicking_state),
    {
        let ghost before = self@;
        self.calculate_scale_lines();
        let ghost lined = self@;
        self.calculate_bars(timestamp, pointer_x, pointer_y, clicking_state);
        proof {
            assert(lined.placed(timestamp) =~= before.placed(timestamp));
            assert(lined.growing(timestamp) == before.growing(timestamp)) by {
                if before.growing(timestamp) {
                    let i = choose|i: int|
                        0 <= i < before.bars.len() && !#[trigger] before.grown(i, timestamp);
                    assert(!lined.grown(i, timestamp));
                }
                if lined.growing(timestamp) {
                    let i = choose|i: int|
                        0 <= i < lined.bars.len() && !#[trigger] lined.grown(i, timestamp);
                    assert(!before.grown(i, timestamp));
                }
            }
        }
    }

    /// Toggles the selection of the bar at `index` and deselects every other
    /// bar.
    pub fn toggle_bar_selection_at(&mut self, index: usize, timestamp: u64)
        requires
            old(self).wf(),
            index < old(self)@.bars.len(),
        ensures
            final(self).wf(),
            final(self)@ == (BarChartView {
                bars: toggled(old(self)@.bars, index as int, timestamp),
                selected_bar_index: if old(self)@.bars[index as int].selected_state.is_selected() {
                    None
                } else {
                    Some(index)
                },
                ..old(self)@
            }),
    {
        self.selected_bar_index = toggle_selection_at(&mut self.bars, index, timestamp);
        proof {
            assert forall|j: int| 0 <= j < self.bars@.len() implies (#[trigger] self.bars@[j]).wf() by {
                assert(old(self).bars@[j].wf());
            }
        }
    }

    /// Deselects every bar.
    pub fn deselect_bars(&mut self, timestamp: u64)
        requires
            old(self).wf(),
        ensures
            final(self).wf(),
            final(self)@ == (BarChartView {
                bars: deselected(old(self)@.bars, timestamp),
                selected_bar_index: None,
                ..old(self)@
            }),
    {
        deselect_all(&mut self.bars, timestamp);
        self.selected_bar_index = None;
        proof {
            assert forall|j: int| 0 <= j < self.bars@.len() implies (#[trigger] self.bars@[j]).wf() by {
                assert(old(self).bars@[j].wf());
            }
        }
    }

    /// Draws the scale lines of the last frame.
    fn draw_scale_lines(&mut self)
        requires
            old(self).wf(),
        ensures
            final(self).wf(),
            final(self)@ == (BarChartView {
                pixels: with_scale_lines(
                    old(self)@.pixels,
                    old(self)@.width,
                    old(self)@.height,
                    old(self)@.scale_lines,
                    old(self)@.scale_lines.len() as int,
                ),
                ..old(self)@
            }),
    {
        let ghost before = *self;
        let ghost view = self@;
        let count = self.scale_lines.len();
        let width = self.width;
        let height = self.height;
        let mut i: usize = 0;
        while i < count
            invariant
                i <= count,
                count == view.scale_lines.len(),
                before.wf(),
                view == before@,
                width == view.width,
                height == view.height,
                *self == (BarChart { pixels: self.pixels, ..before }),
                self.pixels@.len() == view.pixels.len(),
                self.pixels@ == with_scale_lines(
                    view.pixels,
                    view.width,
                    view.height,
                    view.scale_lines,
                    i as int,
                ),
            decreases count - i,
        {
            let line = self.scale_lines.get(i);
            let color = Color { r: line.intensity, g: line.intensity, b: line.intensity, a: 255 };
            draw_rect(
                &mut self.pixels,
                width,
                height,
                line.x,
                line.y,
                line.width,
                line.height,
                &color,
            );
            i += 1;
        }
    }

    /// Draws the bars as the last frame left them.
    fn draw_bars(&mut self)
        requires
            old(self).wf(),
        ensures
            final(self).wf(),
            final(self)@ == (BarChartView {
                pixels: with_bars(
                    old(self)@.pixels,
                    old(self)@.width,
                    old(self)@.height,
                    old(self)@.layout.positioning.bottom,
                    old(self)@.layout.bar_layout.bar_corner_radius,
                    old(self)@.bars,
                    old(self)@.bars.len() as int,
                ),
                ..old(self)@
            }),
    {
        let ghost before = *self;
        let ghost view = self@;
        let count = self.bars.len();
        let width = self.width;
        let height = self.height;
        let bottom = self.layout.positioning.bottom;
        let corner_radius = self.layout.bar_layout.bar_corner_radius;
        let mut i: usize = 0;
        while i < count
            invariant
                i <= count,
                count == view.bars.len(),
                before.wf(),
                view == before@,
                width == view.width,
                height == view.height,
                bottom == view.layout.positioning.bottom,
                corner_radius == view.layout.bar_layout.bar_corner_radius,
                *self == (BarChart { pixels: self.pixels, ..before }),
                self.pixels@.len() == view.pixels.len(),
                self.pixels@ == with_bars(
                    view.pixels,
                    view.width,
                    view.height,
                    bottom,
                    corner_radius,
                    view.bars,
                    i as int,
                ),
            decreases count - i,
        {
            let bar = self.bars[i];
            draw_bar(&mut self.pixels, width, height, bottom, corner_radius, &bar);
            i += 1;
        }
    }

    /// Draws the chart into its pixel buffer: see
    /// [`BarChartView::rendered`].
    pub fn render(&mut self)
        requires
            old(self).wf(),
        ensures
            final(self).wf(),
            final(self)@ == old(self)@.rendered(),
    {
        clear_background(&mut self.pixels, self.width, self.height, &self.background_color);
        self.draw_scale_lines();
        self.draw_bars();
    }
}

} // verus!
