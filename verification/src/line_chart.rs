//! The line chart: one point per data point, handed out as vertex and color
//! arrays for a pipeline that draws triangles.
//!
//! Every scale line and every point is a quad of two triangles. Positions are
//! fixed-point numbers in normalized device coordinates: the canvas spans
//! from minus one to one in both directions, and `y` points up. Colors are
//! given per vertex, one byte per channel.
//!
//! The chart is described by its view, [`LineChartView`]. Each operation is
//! specified as a function from the view before to the view after.

use vstd::prelude::*;
use crate::axis::{AxisConfig, MAX_SCALE_LINES};
use crate::element::{
    all_wf, advanced, animating_after, deselect_all, deselected, hovered_element,
    lemma_advanced_inv, lemma_advanced_twice, lemma_at_most_one_selected, lemma_step_keeps_box, same_box, same_shape,
    selected_after, selection_is, toggle_selection_at, toggled, update_elements, Element, Style,
};
use crate::layout::{plot_height, scale_length, scaled};
use crate::raster::Color;
use crate::types::{ClickingState, Positioning, ScaleLineObject, ValueAxisLayout};
use crate::utils::{clamp_to_u32, clamp_u32, floor_div, PreAllocatedCollection, UNIT};

verus! {

/// The number of vertices of a quad: two triangles.
pub const VERTICES_PER_QUAD: usize = 6;

/// The number of coordinates of a quad.
pub const QUAD_POSITIONS: usize = 12;

/// The number of color channels of a quad.
pub const QUAD_COLORS: usize = 24;

/// One datum of a line chart.
#[derive(Debug, Clone, Copy, PartialEq, Eq, Structural)]
pub struct LineChartDataPoint {
    pub x: i32,
    pub y: i32,
}

/// The layout of the points.
#[derive(Debug, Clone, Copy, PartialEq, Eq, Structural)]
pub struct PointLayout {
    /// The side of the square that stands for a point and that the pointer
    /// has to hit.
    pub radius: u32,
}

/// The layout of a line chart.
#[derive(Debug, Clone, Copy, PartialEq, Eq, Structural)]
pub struct LineChartLayout {
    pub positioning: Positioning,
    pub point_layout: PointLayout,
    pub value_axis_layout: ValueAxisLayout,
}

/// The look of the points.
#[derive(Debug, Clone, Copy, PartialEq, Eq, Structural)]
pub struct PointOptions {
    pub color: Color,
    pub hover_color: Color,
    pub selected_color: Color,
    /// The fixed-point scale of a hovered point.
    pub hover_scale: u32,
    /// The most points the chart can hand out in a frame.
    pub max_points: usize,
}

/// The look of a line chart.
#[derive(Debug, Clone, Copy, PartialEq, Eq, Structural)]
pub struct LineChartOptions {
    pub background_color: Color,
    pub point_options: PointOptions,
    pub value_axis_color: Color,
}

/// The arrays of one frame: positions and colors of the scale lines
/// ("general") and of the points.
#[derive(Debug)]
pub struct WasmLineChartData {
    pub vertex_array_general: Vec<i64>,
    pub colors_array_general: Vec<u8>,
    pub vertex_array_points: Vec<i64>,
    pub colors_array_points: Vec<u8>,
}

/// The ranges of the data: the smallest and the largest `x` and the largest
/// `y`, each taken together with zero.
pub struct DataRange {
    pub min_x: i32,
    pub max_x: i32,
    pub max_y: i32,
}

/// The ranges of the first `n` data points.
pub open spec fn range_of(data: Seq<LineChartDataPoint>, n: int) -> DataRange
    decreases n,
{
    if n <= 0 {
        DataRange { min_x: 0, max_x: 0, max_y: 0 }
    } else {
        let rest = range_of(data, n - 1);
        let point = data[n - 1];
        DataRange {
            min_x: if point.x < rest.min_x {
                point.x
            } else {
                rest.min_x
            },
            max_x: if point.x > rest.max_x {
                point.x
            } else {
                rest.max_x
            },
            max_y: if point.y > rest.max_y {
                point.y
            } else {
                rest.max_y
            },
        }
    }
}

/// The ranges include zero and every data point.
pub proof fn lemma_range_of(data: Seq<LineChartDataPoint>, n: int)
    requires
        0 <= n <= data.len(),
    ensures
        range_of(data, n).min_x <= 0 <= range_of(data, n).max_x,
        0 <= range_of(data, n).max_y,
        forall|i: int|
            0 <= i < n ==> range_of(data, n).min_x <= (#[trigger] data[i]).x <= range_of(
                data,
                n,
            ).max_x && data[i].y <= range_of(data, n).max_y,
    decreases n,
{
    if n > 0 {
        lemma_range_of(data, n - 1);
    }
}

/// The normalized device coordinate of a pixel position on an axis of the
/// given extent, in fixed point: `position / extent * 2 - 1`. The position
/// is given doubled, so that half pixels can be told.
pub open spec fn ndc(twice: int, extent: int) -> int {
    (twice * (UNIT as int)) / extent - (UNIT as int)
}

/// The twelve coordinates of the two triangles that fill the box between
/// `left` and `right`, `bottom` and `top`.
pub open spec fn quad(left: int, right: int, top: int, bottom: int) -> Seq<int> {
    seq![left, bottom, left, top, right, top, right, bottom, left, bottom, right, top]
}

/// The quad of a scale line on a canvas of the given size.
pub open spec fn line_quad(line: ScaleLineObject, width: u32, height: u32) -> Seq<int> {
    quad(
        ndc(2 * line.x, width as int),
        ndc(2 * (line.x + line.width), width as int),
        -ndc(2 * line.y, height as int),
        -ndc(2 * (line.y + line.height), height as int),
    )
}

/// The quad of a point on a canvas of the given size: the point's box, as
/// wide as its scale makes it and centred on the unscaled box.
pub open spec fn point_quad(point: Element, width: u32, height: u32) -> Seq<int> {
    let drawn = scaled(point.width as int, point.scale as int);
    quad(
        ndc(2 * point.x - drawn + point.width, width as int),
        ndc(2 * point.x + drawn + point.width, width as int),
        -ndc(2 * point.y, height as int),
        -ndc(2 * (point.y + point.height), height as int),
    )
}

/// The brightness of a scale line as a fixed-point fraction.
pub open spec fn intensity_fraction(intensity: u8) -> int {
    (intensity as int * UNIT as int) / 255
}

/// The color of a scale line: the background blended towards the color of
/// the value axis by the brightness of the line.
pub open spec fn line_color(line: ScaleLineObject, background: Color, axis_color: Color) -> Color {
    background.blend(axis_color, intensity_fraction(line.intensity))
}

/// The positions of the scale lines of a frame, quad after quad.
pub open spec fn general_positions(lines: Seq<ScaleLineObject>, width: u32, height: u32) -> Seq<
    int,
> {
    Seq::new(
        lines.len() * QUAD_POSITIONS as nat,
        |k: int| line_quad(lines[k / QUAD_POSITIONS as int], width, height)[k % QUAD_POSITIONS as int],
    )
}

/// The colors of the scale lines of a frame: four channels for each of the
/// six vertices of every quad.
pub open spec fn general_colors(
    lines: Seq<ScaleLineObject>,
    background: Color,
    axis_color: Color,
) -> Seq<u8> {
    Seq::new(
        lines.len() * QUAD_COLORS as nat,
        |k: int| line_color(lines[k / QUAD_COLORS as int], background, axis_color).channel(k % 4),
    )
}

/// The positions of the points of a frame, quad after quad.
pub open spec fn points_positions(points: Seq<Element>, width: u32, height: u32) -> Seq<int> {
    Seq::new(
        points.len() * QUAD_POSITIONS as nat,
        |k: int| point_quad(points[k / QUAD_POSITIONS as int], width, height)[k % QUAD_POSITIONS as int],
    )
}

/// The colors of the points of a frame.
pub open spec fn points_colors(points: Seq<Element>) -> Seq<u8> {
    Seq::new(
        points.len() * QUAD_COLORS as nat,
        |k: int| points[k / QUAD_COLORS as int].color.channel(k % 4),
    )
}

/// The numbers of a vector as mathematical integers.
pub open spec fn ints_of(v: Seq<i64>) -> Seq<int> {
    Seq::new(v.len(), |i: int| v[i] as int)
}

/// What a line chart is made of.
pub struct LineChartView {
    pub data: Seq<LineChartDataPoint>,
    /// The moment at which the data was set.
    pub start_timestamp: u64,
    /// The size of the canvas.
    pub width: u32,
    pub height: u32,
    /// One point per data point.
    pub points: Seq<Element>,
    /// The scale lines of the last frame.
    pub scale_lines: Seq<ScaleLineObject>,
    pub layout: LineChartLayout,
    pub options: LineChartOptions,
    /// The ranges of the data.
    pub min_x: i32,
    pub max_x: i32,
    pub max_y: i32,
    /// Whether the last frame left something to animate.
    pub is_animating: bool,
    /// The point under the pointer and the selected point.
    pub hovered_point_index: Option<usize>,
    pub selected_point_index: Option<usize>,
    /// Whether the data was replaced since the last frame.
    pub updated_data: bool,
}

impl LineChartView {
    /// What holds of every chart: there is one point per data point, the
    /// canvas is not empty, the ranges are those of the data, and at most the
    /// point that is recorded as selected is selected.
    pub open spec fn inv(self) -> bool {
        &&& self.points.len() == self.data.len()
        &&& self.points.len() <= usize::MAX
        &&& self.width > 0
        &&& self.height > 0
        &&& range_of(self.data, self.data.len() as int) == (DataRange {
            min_x: self.min_x,
            max_x: self.max_x,
            max_y: self.max_y,
        })
        &&& all_wf(self.points)
        &&& selection_is(self.points, self.selected_point_index)
    }

    /// What the scale lines depend on.
    pub open spec fn axis(self) -> AxisConfig {
        AxisConfig {
            width: self.width,
            height: self.height,
            top: self.layout.positioning.top,
            bottom: self.layout.positioning.bottom,
            max_value: self.max_y as u32,
            axis_width: self.layout.value_axis_layout.value_axis_width,
            smallest_scale: self.layout.value_axis_layout.value_axis_smallest_scale,
            min_pixel_distance: self.layout.value_axis_layout.value_axis_min_pixel_distance,
            major_intensity: 100,
            minor_intensity: 50,
            edge_intensity: 255,
        }
    }

    /// The colors of the points.
    pub open spec fn style(self) -> Style {
        Style {
            color: self.options.point_options.color,
            hover_color: self.options.point_options.hover_color,
            selected_color: self.options.point_options.selected_color,
            hover_scale: self.options.point_options.hover_scale,
        }
    }

    /// Whether a frame can be laid out: the scale lines and the points fit
    /// the room that was set aside for them.
    pub open spec fn frame_fits(self) -> bool {
        self.axis().line_count() <= MAX_SCALE_LINES && self.points.len()
            <= self.options.point_options.max_points
    }

    /// Where the plot begins: behind the left margin and the value axis.
    pub open spec fn plot_left(self) -> int {
        self.layout.positioning.left + self.layout.value_axis_layout.value_axis_width
    }

    /// The width of the plot.
    pub open spec fn plot_width(self) -> int {
        self.width - self.plot_left() - self.layout.positioning.right
    }

    /// The height of the plot.
    pub open spec fn plot_height(self) -> int {
        plot_height(
            self.height,
            self.layout.positioning.top,
            self.layout.positioning.bottom,
        )
    }

    /// The share of `extent` that `value` has of `range`, rounded down and
    /// not negative; zero where the range is empty.
    pub open spec fn share(value: int, range: int, extent: int) -> int {
        if range <= 0 {
            0
        } else {
            clamp_u32((value * extent) / range)
        }
    }

    /// Point `i` in its place: its `x` is scaled by the width of the plot
    /// over the range of `x`, its `y` by the height of the plot over the
    /// largest `y`, measured up from the bottom of the plot. Its box has the
    /// side that the layout gives.
    pub open spec fn placed_point(self, i: int) -> Element {
        Element {
            x: clamp_u32(
                Self::share(self.data[i].x as int, self.max_x - self.min_x, self.plot_width())
                    + self.plot_left(),
            ) as u32,
            y: clamp_u32(
                self.height - self.layout.positioning.bottom - Self::share(
                    self.data[i].y as int,
                    self.max_y as int,
                    self.plot_height(),
                ),
            ) as u32,
            width: self.layout.point_layout.radius,
            height: self.layout.point_layout.radius,
            ..self.points[i]
        }
    }

    /// The points in their places.
    pub open spec fn placed(self) -> Seq<Element> {
        Seq::new(self.points.len(), |i: int| self.placed_point(i))
    }

    /// The chart after a frame at the moment `now`, with the pointer at the
    /// given place (if it is over the canvas) and its button in the given
    /// state.
    ///
    /// The scale lines are laid out anew. The points are put in their
    /// places, then take their step: the first point under the pointer is
    /// hovered, a released button toggles its selection or, released on no
    /// point, deselects all. The chart is animating if an animation of a
    /// point has not ended, if the button was released on no point, or if
    /// the data was replaced since the last frame.
    pub open spec fn updated(
        self,
        now: u64,
        pointer_x: Option<u32>,
        pointer_y: Option<u32>,
        click: ClickingState,
    ) -> LineChartView {
        let placed = self.placed();
        LineChartView {
            scale_lines: self.axis().scale_lines(),
            points: advanced(placed, pointer_x, pointer_y, click, now, self.style()),
            hovered_point_index: match hovered_element(placed, pointer_x, pointer_y) {
                Some(h) => Some(h as usize),
                None => None,
            },
            selected_point_index: selected_after(
                placed,
                self.selected_point_index,
                pointer_x,
                pointer_y,
                click,
            ),
            is_animating: animating_after(
                placed,
                pointer_x,
                pointer_y,
                click,
                now,
                self.style(),
            ) || self.updated_data,
            updated_data: false,
            ..self
        }
    }

    /// The point at place `i` after the data was replaced at the moment
    /// `timestamp`: a fresh point, which keeps the selection of the point
    /// whose place it takes.
    pub open spec fn carried_point(self, i: int, timestamp: u64) -> Element {
        if i < self.points.len() {
            Element { selected_state: self.points[i].selected_state, ..Element::fresh(timestamp) }
        } else {
            Element::fresh(timestamp)
        }
    }

    /// The chart after its data was replaced at the moment `timestamp`. The
    /// selection stays with its place if the place is still there, and the
    /// chart is animating.
    pub open spec fn with_data(self, data: Seq<LineChartDataPoint>, timestamp: u64) -> LineChartView {
        let range = range_of(data, data.len() as int);
        LineChartView {
            data,
            start_timestamp: timestamp,
            points: Seq::new(data.len(), |i: int| self.carried_point(i, timestamp)),
            min_x: range.min_x,
            max_x: range.max_x,
            max_y: range.max_y,
            hovered_point_index: None,
            selected_point_index: match self.selected_point_index {
                Some(s) => if s < data.len() {
                    Some(s)
                } else {
                    None
                },
                None => None,
            },
            is_animating: true,
            updated_data: true,
            ..self
        }
    }

    /// The chart with a canvas of another size.
    pub open spec fn resized(self, width: u32, height: u32) -> LineChartView {
        LineChartView { width, height, ..self }
    }

    /// Whether `frame` holds the arrays of the chart's last frame.
    pub open spec fn emits(self, frame: WasmLineChartData) -> bool {
        &&& ints_of(frame.vertex_array_general@) == general_positions(
            self.scale_lines,
            self.width,
            self.height,
        )
        &&& frame.colors_array_general@ == general_colors(
            self.scale_lines,
            self.options.background_color,
            self.options.value_axis_color,
        )
        &&& ints_of(frame.vertex_array_points@) == points_positions(
            self.points,
            self.width,
            self.height,
        )
        &&& frame.colors_array_points@ == points_colors(self.points)
    }
}

impl LineChartView {
    /// At most one point is selected.
    pub proof fn lemma_single_selection(self, i: int, j: int)
        requires
            self.inv(),
            0 <= i < self.points.len(),
            0 <= j < self.points.len(),
            self.points[i].selected_state.is_selected(),
            self.points[j].selected_state.is_selected(),
        ensures
            i == j,
    {
        lemma_at_most_one_selected(self.points, self.selected_point_index, i, j);
    }

    /// A frame keeps what holds of every chart, and with it the selection in
    /// order: whatever the pointer does, at most one point is selected.
    pub proof fn lemma_updated_inv(
        self,
        now: u64,
        pointer_x: Option<u32>,
        pointer_y: Option<u32>,
        click: ClickingState,
    )
        requires
            self.inv(),
        ensures
            self.updated(now, pointer_x, pointer_y, click).inv(),
    {
        let placed = self.placed();
        assert forall|i: int| 0 <= i < placed.len() implies (#[trigger] placed[i]).wf()
            && placed[i].selected_state == self.points[i].selected_state by {
            assert(self.points[i].wf());
        }
        if let Some(s) = self.selected_point_index {
            assert(placed[s as int].selected_state.is_selected());
        }
        lemma_advanced_inv(
            placed,
            self.selected_point_index,
            pointer_x,
            pointer_y,
            click,
            now,
            self.style(),
        );
    }

    /// New data keeps what holds of every chart: the selection stays in
    /// order when points come and go.
    pub proof fn lemma_with_data_inv(self, data: Seq<LineChartDataPoint>, timestamp: u64)
        requires
            self.inv(),
            data.len() <= usize::MAX,
        ensures
            self.with_data(data, timestamp).inv(),
    {
        let after = self.with_data(data, timestamp);
        assert forall|i: int| 0 <= i < after.points.len() implies (#[trigger] after.points[i]).wf()
            && (after.points[i].selected_state.is_selected() ==> i < self.points.len()
            && self.points[i].selected_state.is_selected()) by {}
    }

    /// A frame leaves every point where the layout puts it.
    pub proof fn lemma_update_places(
        self,
        now: u64,
        pointer_x: Option<u32>,
        pointer_y: Option<u32>,
        click: ClickingState,
    )
        ensures
            ({
                let once = self.updated(now, pointer_x, pointer_y, click);
                &&& once.points.len() == self.points.len()
                &&& once.placed() == once.points
                &&& forall|i: int|
                    0 <= i < self.points.len() ==> same_box(
                        #[trigger] once.points[i],
                        self.placed_point(i),
                    )
            }),
    {
        let once = self.updated(now, pointer_x, pointer_y, click);
        let placed = self.placed();
        let hovered = hovered_element(placed, pointer_x, pointer_y);
        assert forall|i: int| 0 <= i < self.points.len() implies same_box(
            #[trigger] once.points[i],
            self.placed_point(i),
        ) && once.placed_point(i) == once.points[i] by {
            lemma_step_keeps_box(placed[i], hovered == Some(i), click, now, self.style());
        }
        assert(once.placed() =~= once.points);
    }

    /// A second frame at the same moment, with the same pointer and button,
    /// hands out the same geometry: the same positions of the scale lines
    /// and of the points, and the same colors of the scale lines, with the
    /// same point hovered. Unless the button was just released, which
    /// toggles the selection once more, the colors of the points, the points
    /// themselves and the selection are the same too.
    pub proof fn lemma_update_twice(
        self,
        now: u64,
        pointer_x: Option<u32>,
        pointer_y: Option<u32>,
        click: ClickingState,
    )
        ensures
            ({
                let once = self.updated(now, pointer_x, pointer_y, click);
                let twice = once.updated(now, pointer_x, pointer_y, click);
                &&& twice.scale_lines == once.scale_lines
                &&& twice.hovered_point_index == once.hovered_point_index
                &&& general_positions(twice.scale_lines, twice.width, twice.height)
                    == general_positions(once.scale_lines, once.width, once.height)
                &&& general_colors(
                    twice.scale_lines,
                    twice.options.background_color,
                    twice.options.value_axis_color,
                ) == general_colors(
                    once.scale_lines,
                    once.options.background_color,
                    once.options.value_axis_color,
                )
                &&& points_positions(twice.points, twice.width, twice.height) == points_positions(
                    once.points,
                    once.width,
                    once.height,
                )
                &&& !(click is JustReleased) ==> twice.points == once.points
                    && twice.selected_point_index == once.selected_point_index && points_colors(
                    twice.points,
                ) == points_colors(once.points)
            }),
    {
        let once = self.updated(now, pointer_x, pointer_y, click);
        let twice = once.updated(now, pointer_x, pointer_y, click);
        self.lemma_update_places(now, pointer_x, pointer_y, click);
        lemma_advanced_twice(self.placed(), pointer_x, pointer_y, click, now, self.style());
        assert(twice.points.len() == once.points.len());
        assert forall|i: int| 0 <= i < once.points.len() implies point_quad(
            #[trigger] twice.points[i],
            twice.width,
            twice.height,
        ) == point_quad(once.points[i], once.width, once.height) by {
            assert(same_shape(twice.points[i], once.points[i]));
        }
        assert(points_positions(twice.points, twice.width, twice.height) =~= points_positions(
            once.points,
            once.width,
            once.height,
        ));
    }
}

/// A line chart with the buffers it fills in every frame.
pub struct LineChart {
    data: Vec<LineChartDataPoint>,
    start_timestamp: u64,
    width: u32,
    height: u32,
    points: Vec<Element>,
    scale_lines: PreAllocatedCollection<ScaleLineObject>,
    layout: LineChartLayout,
    options: LineChartOptions,
    min_x: i32,
    max_x: i32,
    max_y: i32,
    is_animating: bool,
    hovered_point_index: Option<usize>,
    selected_point_index: Option<usize>,
    updated_data: bool,
    vertex_positions_general: PreAllocatedCollection<i64>,
    vertex_colors_general: PreAllocatedCollection<u8>,
    vertex_positions_points: PreAllocatedCollection<i64>,
    vertex_colors_points: PreAllocatedCollection<u8>,
}

impl View for LineChart {
    type V = LineChartView;

    closed spec fn view(&self) -> LineChartView {
        LineChartView {
            data: self.data@,
            start_timestamp: self.start_timestamp,
            width: self.width,
            height: self.height,
            points: self.points@,
            scale_lines: self.scale_lines@,
            layout: self.layout,
            options: self.options,
            min_x: self.min_x,
            max_x: self.max_x,
            max_y: self.max_y,
            is_animating: self.is_animating,
            hovered_point_index: self.hovered_point_index,
            selected_point_index: self.selected_point_index,
            updated_data: self.updated_data,
        }
    }
}

/// Takes in new data: works out its ranges and makes a fresh point for every
/// data point, which keeps the selection of the point whose place it takes.
fn handle_data(
    data: &Vec<LineChartDataPoint>,
    old_points: &Vec<Element>,
    timestamp: u64,
    Ghost(view): Ghost<LineChartView>,
) -> (r: (Vec<Element>, DataRange))
    requires
        view.points == old_points@,
    ensures
        r.0@ == Seq::new(data@.len(), |i: int| view.carried_point(i, timestamp)),
        r.0@.len() <= usize::MAX,
        all_wf(r.0@),
        r.1 == range_of(data@, data@.len() as int),
{
    let mut points: Vec<Element> = Vec::with_capacity(data.len());
    let mut range = DataRange { min_x: 0, max_x: 0, max_y: 0 };
    let mut i: usize = 0;
    while i < data.len()
        invariant
            i <= data@.len(),
            points@.len() == i,
            view.points == old_points@,
            range == range_of(data@, i as int),
            forall|j: int| 0 <= j < i ==> #[trigger] points@[j] == view.carried_point(j, timestamp),
            all_wf(points@),
        decreases data@.len() - i,
    {
        let data_point = data[i];
        if data_point.x < range.min_x {
            range.min_x = data_point.x;
        }
        if data_point.x > range.max_x {
            range.max_x = data_point.x;
        }
        if data_point.y > range.max_y {
            range.max_y = data_point.y;
        }
        let mut point = Element::new(timestamp);
        if i < old_points.len() {
            point.selected_state = old_points[i].selected_state;
        }
        points.push(point);
        i += 1;
    }
    assert(points@ =~= Seq::new(data@.len(), |i: int| view.carried_point(i, timestamp)));
    (points, range)
}

/// The normalized device coordinate of a doubled pixel position.
fn to_ndc(twice: i64, extent: u32) -> (r: i64)
    requires
        extent > 0,
        -0x10_0000_0000 <= twice <= 0x10_0000_0000,
    ensures
        r as int == ndc(twice as int, extent as int),
        -0x20_0000_0000_0000 <= r <= 0x20_0000_0000_0000,
{
    assert(-0x10_0000_0000 * 65536 <= twice * UNIT <= 0x10_0000_0000 * 65536) by (nonlinear_arith)
        requires
            -0x10_0000_0000 <= twice <= 0x10_0000_0000,
            UNIT == 65536,
    ;
    (floor_div(twice as i128 * UNIT as i128, extent as i128) - UNIT as i128) as i64
}

/// Writes the twelve coordinates of quad `index`.
fn write_quad(
    positions: &mut PreAllocatedCollection<i64>,
    index: usize,
    left: i64,
    right: i64,
    top: i64,
    bottom: i64,
)
    requires
        old(positions).wf(),
        (index + 1) * QUAD_POSITIONS <= old(positions)@.len(),
    ensures
        final(positions).wf(),
        final(positions).capacity() == old(positions).capacity(),
        final(positions)@.len() == old(positions)@.len(),
        forall|k: int|
            0 <= k < old(positions)@.len() ==> #[trigger] final(positions)@[k] as int == if k
                / QUAD_POSITIONS as int == index {
                quad(left as int, right as int, top as int, bottom as int)[k % QUAD_POSITIONS as int]
            } else {
                old(positions)@[k] as int
            },
{
    proof {
        positions.lemma_len_within_capacity();
    }
    let base: usize = index * QUAD_POSITIONS;
    positions.set(base, left);
    positions.set(base + 1, bottom);
    positions.set(base + 2, left);
    positions.set(base + 3, top);
    positions.set(base + 4, right);
    positions.set(base + 5, top);
    positions.set(base + 6, right);
    positions.set(base + 7, bottom);
    positions.set(base + 8, left);
    positions.set(base + 9, bottom);
    positions.set(base + 10, right);
    positions.set(base + 11, top);
}

/// Writes the color of the six vertices of quad `index`.
fn write_color(colors: &mut PreAllocatedCollection<u8>, index: usize, color: Color)
    requires
        old(colors).wf(),
        (index + 1) * QUAD_COLORS <= old(colors)@.len(),
    ensures
        final(colors).wf(),
        final(colors).capacity() == old(colors).capacity(),
        final(colors)@.len() == old(colors)@.len(),
        forall|k: int|
            0 <= k < old(colors)@.len() ==> #[trigger] final(colors)@[k] == if k / QUAD_COLORS as int
                == index {
                color.channel(k % 4)
            } else {
                old(colors)@[k]
            },
{
    proof {
        colors.lemma_len_within_capacity();
    }
    let base: usize = index * QUAD_COLORS;
    let mut offset: usize = 0;
    while offset < VERTICES_PER_QUAD
        invariant
            offset <= VERTICES_PER_QUAD,
            base == index * QUAD_COLORS,
            base + QUAD_COLORS <= colors@.len(),
            colors@.len() <= usize::MAX,
            colors.wf(),
            colors.capacity() == old(colors).capacity(),
            colors@.len() == old(colors)@.len(),
            forall|k: int|
                0 <= k < colors@.len() ==> #[trigger] colors@[k] == if base <= k < base + offset
                    * 4 {
                    color.channel(k % 4)
                } else {
                    old(colors)@[k]
                },
        decreases VERTICES_PER_QUAD - offset,
    {
        let at: usize = base + offset * 4;
        colors.set(at, color.r);
        colors.set(at + 1, color.g);
        colors.set(at + 2, color.b);
        colors.set(at + 3, color.a);
        offset += 1;
    }
}

impl LineChart {
    /// What holds of every chart that this module hands out.
    pub closed spec fn wf(&self) -> bool {
        &&& self@.inv()
        &&& self.scale_lines.wf()
        &&& self.scale_lines.capacity() == MAX_SCALE_LINES
        &&& self.vertex_positions_general.wf()
        &&& self.vertex_positions_general.capacity() == MAX_SCALE_LINES * QUAD_POSITIONS
        &&& self.vertex_colors_general.wf()
        &&& self.vertex_colors_general.capacity() == MAX_SCALE_LINES * QUAD_COLORS
        &&& self.vertex_positions_points.wf()
        &&& self.vertex_positions_points.capacity() == self.options.point_options.max_points
            * QUAD_POSITIONS
        &&& self.vertex_colors_points.wf()
        &&& self.vertex_colors_points.capacity() == self.options.point_options.max_points
            * QUAD_COLORS
    }

    /// A chart holds what its view says of every chart.
    pub proof fn lemma_wf_inv(&self)
        requires
            self.wf(),
        ensures
            self@.inv(),
            self@.scale_lines.len() <= MAX_SCALE_LINES,
    {
        self.scale_lines.lemma_len_within_capacity();
    }

    /// A chart of the given data on a canvas of the given size. No frame has
    /// been laid out yet.
    pub fn new(
        data: Vec<LineChartDataPoint>,
        start_timestamp: u64,
        width: u32,
        height: u32,
        layout: LineChartLayout,
        options: LineChartOptions,
    ) -> (chart: LineChart)
        requires
            width > 0,
            height > 0,
            options.point_options.max_points * QUAD_COLORS <= usize::MAX,
        ensures
            chart.wf(),
            chart@ == (LineChartView {
                data: data@,
                start_timestamp,
                width,
                height,
                points: Seq::new(data@.len(), |i: int| Element::fresh(start_timestamp)),
                scale_lines: Seq::empty(),
                layout,
                options,
                min_x: range_of(data@, data@.len() as int).min_x,
                max_x: range_of(data@, data@.len() as int).max_x,
                max_y: range_of(data@, data@.len() as int).max_y,
                is_animating: true,
                hovered_point_index: None,
                selected_point_index: None,
                updated_data: false,
            }),
    {
        let scale_lines = PreAllocatedCollection::new(
            ScaleLineObject { x: 0, y: 0, width: 0, height: 0, intensity: 0, value: 0 },
            0,
            MAX_SCALE_LINES,
        );
        let no_points: Vec<Element> = Vec::new();
        let ghost nothing = LineChartView {
            data: data@,
            start_timestamp,
            width,
            height,
            points: no_points@,
            scale_lines: Seq::empty(),
            layout,
            options,
            min_x: 0,
            max_x: 0,
            max_y: 0,
            is_animating: true,
            hovered_point_index: None,
            selected_point_index: None,
            updated_data: false,
        };
        let (points, range) = handle_data(&data, &no_points, start_timestamp, Ghost(nothing));
        let max_points = options.point_options.max_points;
        let vertex_positions_general = PreAllocatedCollection::new(
            0i64,
            0,
            MAX_SCALE_LINES * QUAD_POSITIONS,
        );
        let vertex_colors_general = PreAllocatedCollection::new(
            0u8,
            0,
            MAX_SCALE_LINES * QUAD_COLORS,
        );
        let vertex_positions_points = PreAllocatedCollection::new(
            0i64,
            0,
            max_points * QUAD_POSITIONS,
        );
        let vertex_colors_points = PreAllocatedCollection::new(0u8, 0, max_points * QUAD_COLORS);
        let chart = LineChart {
            data,
            start_timestamp,
            width,
            height,
            points,
            scale_lines,
            layout,
            options,
            min_x: range.min_x,
            max_x: range.max_x,
            max_y: range.max_y,
            is_animating: true,
            hovered_point_index: None,
            selected_point_index: None,
            updated_data: false,
            vertex_positions_general,
            vertex_colors_general,
            vertex_positions_points,
            vertex_colors_points,
        };
        proof {
            assert(chart@.points =~= Seq::new(
                data@.len(),
                |i: int| Element::fresh(start_timestamp),
            ));
            assert(chart@.scale_lines =~= Seq::empty());
        }
        chart
    }

    /// The width of the canvas in pixels.
    pub fn get_width(&self) -> (width: u32)
        ensures
            width == self@.width,
    {
        self.width
    }

    /// The height of the canvas in pixels.
    pub fn get_height(&self) -> (height: u32)
        ensures
            height == self@.height,
    {
        self.height
    }

    /// Gives the canvas another size.
    pub fn resize(&mut self, width: u32, height: u32)
        requires
            old(self).wf(),
            width > 0,
            height > 0,
        ensures
            final(self).wf(),
            final(self)@ == old(self)@.resized(width, height),
    {
        self.width = width;
        self.height = height;
    }

    /// Replaces the data at the moment `timestamp`: see
    /// [`LineChartView::with_data`].
    pub fn update_data(&mut self, data: Vec<LineChartDataPoint>, timestamp: u64)
        requires
            old(self).wf(),
        ensures
            final(self).wf(),
            final(self)@ == old(self)@.with_data(data@, timestamp),
    {
        let (points, range) = handle_data(&data, &self.points, timestamp, Ghost(self@));
        self.selected_point_index = match self.selected_point_index {
            Some(s) => if s < data.len() {
                Some(s)
            } else {
                None
            },
            None => None,
        };
        self.hovered_point_index = None;
        self.data = data;
        self.points = points;
        self.min_x = range.min_x;
        self.max_x = range.max_x;
        self.max_y = range.max_y;
        self.start_timestamp = timestamp;
        self.is_animating = true;
        self.updated_data = true;
    }

    /// The number of points.
    pub fn get_points_len(&self) -> (len: usize)
        requires
            self.wf(),
        ensures
            len == self@.points.len(),
    {
        self.points.len()
    }

    /// The left edge of the point at `index`, as the last frame placed it.
    pub fn get_point_x_at(&self, index: usize) -> (x: u32)
        requires
            self.wf(),
            index < self@.points.len(),
        ensures
            x == self@.points[index as int].x,
    {
        self.points[index].x
    }

    /// The upper edge of the point at `index`, as the last frame placed it.
    pub fn get_point_y_at(&self, index: usize) -> (y: u32)
        requires
            self.wf(),
            index < self@.points.len(),
        ensures
            y == self@.points[index as int].y,
    {
        self.points[index].y
    }

    /// The point at `index` with its place, its colors and its states.
    pub fn get_point_at(&self, index: usize) -> (point: Element)
        requires
            self.wf(),
            index < self@.points.len(),
        ensures
            point == self@.points[index as int],
    {
        self.points[index]
    }

    /// The number of scale lines of the last frame.
    pub fn get_scale_lines_count(&self) -> (count: usize)
        requires
            self.wf(),
        ensures
            count == self@.scale_lines.len(),
    {
        self.scale_lines.len()
    }

    /// The left end of the scale line at `index`.
    pub fn get_scale_line_x_at(&self, index: usize) -> (x: u32)
        requires
            self.wf(),
            index < self@.scale_lines.len(),
        ensures
            x == self@.scale_lines[index as int].x,
    {
        self.scale_lines.get(index).x
    }

    /// The upper edge of the scale line at `index`.
    pub fn get_scale_line_y_at(&self, index: usize) -> (y: u32)
        requires
            self.wf(),
            index < self@.scale_lines.len(),
        ensures
            y == self@.scale_lines[index as int].y,
    {
        self.scale_lines.get(index).y
    }

    /// The data value that the scale line at `index` stands for.
    pub fn get_scale_line_value_at(&self, index: usize) -> (value: u32)
        requires
            self.wf(),
            index < self@.scale_lines.len(),
        ensures
            value == self@.scale_lines[index as int].value,
    {
        self.scale_lines.get(index).value
    }

    /// Whether the last frame left something to animate.
    pub fn get_is_animating(&self) -> (animating: bool)
        ensures
            animating == self@.is_animating,
    {
        self.is_animating
    }

    /// The index of the selected point, if one is selected.
    pub fn get_selected_point_index(&self) -> (selected: Option<usize>)
        ensures
            selected == self@.selected_point_index,
    {
        self.selected_point_index
    }

    /// The index of the point under the pointer in the last frame.
    pub fn get_hovered_point_index(&self) -> (hovered: Option<usize>)
        ensures
            hovered == self@.hovered_point_index,
    {
        self.hovered_point_index
    }

    /// What the scale lines depend on.
    fn axis(&self) -> (axis: AxisConfig)
        requires
            self.max_y >= 0,
        ensures
            axis == self@.axis(),
    {
        AxisConfig {
            width: self.width,
            height: self.height,
            top: self.layout.positioning.top,
            bottom: self.layout.positioning.bottom,
            max_value: self.max_y as u32,
            axis_width: self.layout.value_axis_layout.value_axis_width,
            smallest_scale: self.layout.value_axis_layout.value_axis_smallest_scale,
            min_pixel_distance: self.layout.value_axis_layout.value_axis_min_pixel_distance,
            major_intensity: 100,
            minor_intensity: 50,
            edge_intensity: 255,
        }
    }

    /// The colors of the points.
    fn style(&self) -> (style: Style)
        ensures
            style == self@.style(),
    {
        Style {
            color: self.options.point_options.color,
            hover_color: self.options.point_options.hover_color,
            selected_color: self.options.point_options.selected_color,
            hover_scale: self.options.point_options.hover_scale,
        }
    }

    /// Whether the scale lines and the points of the next frame fit the room
    /// that was set aside for them. [`LineChart::update`] may only be called
    /// if they do.
    pub fn frame_fits(&self) -> (fit: bool)
        requires
            self.wf(),
        ensures
            fit == self@.frame_fits(),
    {
        proof {
            lemma_range_of(self.data@, self.data@.len() as int);
        }
        self.axis().count_lines() <= MAX_SCALE_LINES as u64 && self.points.len()
            <= self.options.point_options.max_points
    }

    /// Lays out the scale lines of the frame.
    fn calculate_scale_lines(&mut self)
        requires
            old(self).wf(),
            old(self)@.frame_fits(),
        ensures
            final(self).wf(),
            final(self)@ == (LineChartView {
                scale_lines: old(self)@.axis().scale_lines(),
                ..old(self)@
            }),
    {
        proof {
            lemma_range_of(self.data@, self.data@.len() as int);
        }
        let axis = self.axis();
        axis.calculate_scale_lines(&mut self.scale_lines);
    }

    /// Puts the points in their places.
    fn place_points(&mut self)
        requires
            old(self).wf(),
        ensures
            final(self).wf(),
            final(self)@ == (LineChartView { points: old(self)@.placed(), ..old(self)@ }),
    {
        let ghost before = *self;
        let ghost view = self@;
        proof {
            lemma_range_of(self.data@, self.data@.len() as int);
        }
        let count = self.points.len();
        let plot_left: i128 = self.layout.positioning.left as i128
            + self.layout.value_axis_layout.value_axis_width as i128;
        let plot_width: i128 = self.width as i128 - plot_left
            - self.layout.positioning.right as i128;
        let bottom: i128 = self.layout.positioning.bottom as i128;
        let plot_height: i128 = self.height as i128 - self.layout.positioning.top as i128 - bottom;
        let range_x: i128 = self.max_x as i128 - self.min_x as i128;
        let range_y: i128 = self.max_y as i128;
        let radius = self.layout.point_layout.radius;
        let mut i: usize = 0;
        while i < count
            invariant
                i <= count,
                count == view.points.len(),
                before.wf(),
                view == before@,
                plot_left == view.plot_left(),
                plot_width == view.plot_width(),
                plot_height == view.plot_height(),
                bottom == view.layout.positioning.bottom,
                range_x == view.max_x - view.min_x,
                range_y == view.max_y,
                radius == view.layout.point_layout.radius,
                *self == (LineChart { points: self.points, ..before }),
                self.points@.len() == count,
                forall|j: int| 0 <= j < i ==> #[trigger] self.points@[j] == view.placed_point(j),
                forall|j: int| i <= j < count ==> #[trigger] self.points@[j] == view.points[j],
            decreases count - i,
        {
            let mut point = self.points[i];
            let data_point = self.data[i];
            let along: u32 = share_of(data_point.x, range_x, plot_width);
            let up: u32 = share_of(data_point.y, range_y, plot_height);
            point.x = clamp_to_u32(along as i128 + plot_left);
            point.y = clamp_to_u32(self.height as i128 - bottom - up as i128);
            point.width = radius;
            point.height = radius;
            self.points[i] = point;
            i += 1;
        }
        proof {
            assert(self.points@ =~= view.placed());
            assert forall|j: int| 0 <= j < count implies (#[trigger] self.points@[j]).wf()
                && self.points@[j].selected_state == view.points[j].selected_state by {
                assert(view.points[j].wf());
            }
        }
    }

    /// Lays out the points of the frame and lets them take their step.
    fn calculate_points(
        &mut self,
        timestamp: u64,
        pointer_x: Option<u32>,
        pointer_y: Option<u32>,
        clicking_state: ClickingState,
    )
        requires
            old(self).wf(),
        ensures
            final(self).wf(),
            final(self)@ == (LineChartView {
                scale_lines: old(self)@.scale_lines,
                ..old(self)@.updated(timestamp, pointer_x, pointer_y, clicking_state)
            }),
    {
        self.place_points();
        let style = self.style();
        let outcome = update_elements(
            &mut self.points,
            self.selected_point_index,
            pointer_x,
            pointer_y,
            clicking_state,
            timestamp,
            &style,
        );
        self.hovered_point_index = outcome.hovered;
        self.selected_point_index = outcome.selected;
        self.is_animating = outcome.animating || self.updated_data;
        self.updated_data = false;
    }

    /// Writes the quads of the scale lines.
    fn get_scale_line_vertex_positions(&mut self)
        requires
            old(self).wf(),
            old(self).vertex_positions_general@.len() == old(self)@.scale_lines.len()
                * QUAD_POSITIONS,
        ensures
            final(self).wf(),
            final(self)@ == old(self)@,
            ints_of(final(self).vertex_positions_general@) == general_positions(
                final(self)@.scale_lines,
                final(self)@.width,
                final(self)@.height,
            ),
    {
        let ghost before = *self;
        let ghost view = self@;
        let ghost target = general_positions(view.scale_lines, view.width, view.height);
        let count = self.scale_lines.len();
        let width = self.width;
        let height = self.height;
        let mut i: usize = 0;
        while i < count
            invariant
                i <= count,
                count == view.scale_lines.len(),
                before.wf(),
                view == before@,
                width == view.width,
                height == view.height,
                target == general_positions(view.scale_lines, view.width, view.height),
                *self == (LineChart {
                    vertex_positions_general: self.vertex_positions_general,
                    ..before
                }),
                self.vertex_positions_general.wf(),
                self.vertex_positions_general.capacity()
                    == before.vertex_positions_general.capacity(),
                self.vertex_positions_general@.len() == count * QUAD_POSITIONS,
                forall|k: int|
                    0 <= k < i * QUAD_POSITIONS ==> #[trigger] self.vertex_positions_general@[k] as int
                        == target[k],
            decreases count - i,
        {
            let line = self.scale_lines.get(i);
            let left = to_ndc(2 * line.x as i64, width);
            let right = to_ndc(2 * (line.x as i64 + line.width as i64), width);
            let top = -to_ndc(2 * line.y as i64, height);
            let bottom = -to_ndc(2 * (line.y as i64 + line.height as i64), height);
            assert((i + 1) * QUAD_POSITIONS <= count * QUAD_POSITIONS) by (nonlinear_arith)
                requires
                    i < count,
            ;
            write_quad(&mut self.vertex_positions_general, i, left, right, top, bottom);
            i += 1;
        }
        assert(ints_of(self.vertex_positions_general@) =~= target);
    }

    /// Writes the colors of the scale lines.
    fn get_scale_line_vertex_colors(&mut self)
        requires
            old(self).wf(),
            old(self).vertex_colors_general@.len() == old(self)@.scale_lines.len() * QUAD_COLORS,
        ensures
            final(self).wf(),
            final(self)@ == old(self)@,
            final(self).vertex_colors_general@ == general_colors(
                final(self)@.scale_lines,
                final(self)@.options.background_color,
                final(self)@.options.value_axis_color,
            ),
            final(self).vertex_positions_general == old(self).vertex_positions_general,
    {
        let ghost before = *self;
        let ghost view = self@;
        let ghost target = general_colors(
            view.scale_lines,
            view.options.background_color,
            view.options.value_axis_color,
        );
        let count = self.scale_lines.len();
        let background = self.options.background_color;
        let axis_color = self.options.value_axis_color;
        let mut i: usize = 0;
        while i < count
            invariant
                i <= count,
                count == view.scale_lines.len(),
                before.wf(),
                view == before@,
                background == view.options.background_color,
                axis_color == view.options.value_axis_color,
                target == general_colors(
                    view.scale_lines,
                    view.options.background_color,
                    view.options.value_axis_color,
                ),
                *self == (LineChart { vertex_colors_general: self.vertex_colors_general, ..before }),
                self.vertex_colors_general.wf(),
                self.vertex_colors_general.capacity() == before.vertex_colors_general.capacity(),
                self.vertex_colors_general@.len() == count * QUAD_COLORS,
                forall|k: int|
                    0 <= k < i * QUAD_COLORS ==> #[trigger] self.vertex_colors_general@[k]
                        == target[k],
            decreases count - i,
        {
            let line = self.scale_lines.get(i);
            let color = background.lerp(&axis_color, (line.intensity as u32 * UNIT) / 255);
            assert((i + 1) * QUAD_COLORS <= count * QUAD_COLORS) by (nonlinear_arith)
                requires
                    i < count,
            ;
            write_color(&mut self.vertex_colors_general, i, color);
            i += 1;
        }
        assert(self.vertex_colors_general@ =~= target);
    }

    /// Sizes the buffer of the scale lines' positions, fills it and hands
    /// out a copy.
    fn get_general_vertex_positions(&mut self) -> (positions: Vec<i64>)
        requires
            old(self).wf(),
        ensures
            final(self).wf(),
            final(self)@ == old(self)@,
            ints_of(positions@) == general_positions(
                final(self)@.scale_lines,
                final(self)@.width,
                final(self)@.height,
            ),
    {
        proof {
            self.scale_lines.lemma_len_within_capacity();
        }
        let count = self.scale_lines.len();
        assert(count * QUAD_POSITIONS <= MAX_SCALE_LINES * QUAD_POSITIONS) by (nonlinear_arith)
            requires
                count <= MAX_SCALE_LINES,
        ;
        self.vertex_positions_general.set_size(count * QUAD_POSITIONS);
        self.get_scale_line_vertex_positions();
        self.vertex_positions_general.to_vec()
    }

    /// Sizes the buffer of the scale lines' colors, fills it and hands out a
    /// copy.
    fn get_general_vertex_colors(&mut self) -> (colors: Vec<u8>)
        requires
            old(self).wf(),
        ensures
            final(self).wf(),
            final(self)@ == old(self)@,
            colors@ == general_colors(
                final(self)@.scale_lines,
                final(self)@.options.background_color,
                final(self)@.options.value_axis_color,
            ),
    {
        proof {
            self.scale_lines.lemma_len_within_capacity();
        }
        let count = self.scale_lines.len();
        assert(count * QUAD_COLORS <= MAX_SCALE_LINES * QUAD_COLORS) by (nonlinear_arith)
            requires
                count <= MAX_SCALE_LINES,
        ;
        self.vertex_colors_general.set_size(count * QUAD_COLORS);
        self.get_scale_line_vertex_colors();
        self.vertex_colors_general.to_vec()
    }

    /// Sizes the buffer of the points' positions, fills it and hands out a
    /// copy.
    fn get_points_vertex_positions(&mut self) -> (positions: Vec<i64>)
        requires
            old(self).wf(),
            old(self)@.points.len() <= old(self)@.options.point_options.max_points,
        ensures
            final(self).wf(),
            final(self)@ == old(self)@,
            ints_of(positions@) == points_positions(
                final(self)@.points,
                final(self)@.width,
                final(self)@.height,
            ),
    {
        let ghost before = *self;
        let ghost view = self@;
        let ghost target = points_positions(view.points, view.width, view.height);
        let count = self.points.len();
        let width = self.width;
        let height = self.height;
        assert(count * QUAD_POSITIONS <= self.options.point_options.max_points * QUAD_POSITIONS)
            by (nonlinear_arith)
            requires
                count <= self.options.point_options.max_points,
        ;
        proof {
            self.vertex_positions_points.lemma_len_within_capacity();
        }
        self.vertex_positions_points.set_size(count * QUAD_POSITIONS);
        let mut i: usize = 0;
        while i < count
            invariant
                i <= count,
                count == view.points.len(),
                before.wf(),
                view == before@,
                width == view.width,
                height == view.height,
                target == points_positions(view.points, view.width, view.height),
                *self == (LineChart {
                    vertex_positions_points: self.vertex_positions_points,
                    ..before
                }),
                self.vertex_positions_points.wf(),
                self.vertex_positions_points.capacity()
                    == before.vertex_positions_points.capacity(),
                self.vertex_positions_points@.len() == count * QUAD_POSITIONS,
                forall|k: int|
                    0 <= k < i * QUAD_POSITIONS ==> #[trigger] self.vertex_positions_points@[k] as int
                        == target[k],
            decreases count - i,
        {
            let point = self.points[i];
            let drawn: i64 = scale_length(point.width, point.scale) as i64;
            let left = to_ndc(2 * point.x as i64 - drawn + point.width as i64, width);
            let right = to_ndc(2 * point.x as i64 + drawn + point.width as i64, width);
            let top = -to_ndc(2 * point.y as i64, height);
            let bottom = -to_ndc(2 * (point.y as i64 + point.height as i64), height);
            assert((i + 1) * QUAD_POSITIONS <= count * QUAD_POSITIONS) by (nonlinear_arith)
                requires
                    i < count,
            ;
            write_quad(&mut self.vertex_positions_points, i, left, right, top, bottom);
            i += 1;
        }
        assert(ints_of(self.vertex_positions_points@) =~= target);
        self.vertex_positions_points.to_vec()
    }

    /// Sizes the buffer of the points' colors, fills it and hands out a
    /// copy.
    fn get_points_vertex_colors(&mut self) -> (colors: Vec<u8>)
        requires
            old(self).wf(),
            old(self)@.points.len() <= old(self)@.options.point_options.max_points,
        ensures
            final(self).wf(),
            final(self)@ == old(self)@,
            colors@ == points_colors(final(self)@.points),
    {
        let ghost before = *self;
        let ghost view = self@;
        let ghost target = points_colors(view.points);
        let count = self.points.len();
        assert(count * QUAD_COLORS <= self.options.point_options.max_points * QUAD_COLORS)
            by (nonlinear_arith)
            requires
                count <= self.options.point_options.max_points,
        ;
        proof {
            self.vertex_colors_points.lemma_len_within_capacity();
        }
        self.vertex_colors_points.set_size(count * QUAD_COLORS);
        let mut i: usize = 0;
        while i < count
            invariant
                i <= count,
                count == view.points.len(),
                before.wf(),
                view == before@,
                target == points_colors(view.points),
                *self == (LineChart { vertex_colors_points: self.vertex_colors_points, ..before }),
                self.vertex_colors_points.wf(),
                self.vertex_colors_points.capacity() == before.vertex_colors_points.capacity(),
                self.vertex_colors_points@.len() == count * QUAD_COLORS,
                forall|k: int|
                    0 <= k < i * QUAD_COLORS ==> #[trigger] self.vertex_colors_points@[k]
                        == target[k],
            decreases count - i,
        {
            let color = self.points[i].color;
            assert((i + 1) * QUAD_COLORS <= count * QUAD_COLORS) by (nonlinear_arith)
                requires
                    i < count,
            ;
            write_color(&mut self.vertex_colors_points, i, color);
            i += 1;
        }
        assert(self.vertex_colors_points@ =~= target);
        self.vertex_colors_points.to_vec()
    }

    /// Computes one frame (see [`LineChartView::updated`]) and hands out its
    /// arrays.
    pub fn update(
        &mut self,
        timestamp: u64,
        pointer_x: Option<u32>,
        pointer_y: Option<u32>,
        clicking_state: ClickingState,
    ) -> (frame: WasmLineChartData)
        requires
            old(self).wf(),
            old(self)@.frame_fits(),
        ensures
            final(self).wf(),
            final(self)@ == old(self)@.updated(timestamp, pointer_x, pointer_y, clicking_state),
            final(self)@.emits(frame),
    {
        let ghost before = self@;
        self.calculate_scale_lines();
        let ghost lined = self@;
        self.calculate_points(timestamp, pointer_x, pointer_y, clicking_state);
        proof {
            assert(lined.placed() =~= before.placed());
        }
        let vertex_array_general = self.get_general_vertex_positions();
        let colors_array_general = self.get_general_vertex_colors();
        let vertex_array_points = self.get_points_vertex_positions();
        let colors_array_points = self.get_points_vertex_colors();
        WasmLineChartData {
            vertex_array_general,
            colors_array_general,
            vertex_array_points,
            colors_array_points,
        }
    }

    /// Toggles the selection of the point at `index` and deselects every
    /// other point.
    pub fn toggle_point_selection_at(&mut self, index: usize, timestamp: u64)
        requires
            old(self).wf(),
            index < old(self)@.points.len(),
        ensures
            final(self).wf(),
            final(self)@ == (LineChartView {
                points: toggled(old(self)@.points, index as int, timestamp),
                selected_point_index: if old(self)@.points[index as int].selected_state.is_selected() {
                    None
                } else {
                    Some(index)
                },
                ..old(self)@
            }),
    {
        self.selected_point_index = toggle_selection_at(&mut self.points, index, timestamp);
        proof {
            assert forall|j: int| 0 <= j < self.points@.len() implies (
            #[trigger] self.points@[j]).wf() by {
                assert(old(self).points@[j].wf());
            }
        }
    }

    /// Deselects every point.
    pub fn deselect_points(&mut self, timestamp: u64)
        requires
            old(self).wf(),
        ensures
            final(self).wf(),
            final(self)@ == (LineChartView {
                points: deselected(old(self)@.points, timestamp),
                selected_point_index: None,
                ..old(self)@
            }),
    {
        deselect_all(&mut self.points, timestamp);
        self.selected_point_index = None;
        proof {
            assert forall|j: int| 0 <= j < self.points@.len() implies (
            #[trigger] self.points@[j]).wf() by {
                assert(old(self).points@[j].wf());
            }
        }
    }
}

/// The share of `extent` that `value` has of `range`.
fn share_of(value: i32, range: i128, extent: i128) -> (s: u32)
    requires
        range <= 0x1_0000_0000,
        -0x4_0000_0000 <= extent <= 0x4_0000_0000,
    ensures
        s as int == LineChartView::share(value as int, range as int, extent as int),
{
    if range <= 0 {
        0
    } else {
        assert(-0x8000_0000 * 0x4_0000_0000 <= value * extent <= 0x8000_0000 * 0x4_0000_0000)
            by (nonlinear_arith)
            requires
                -0x8000_0000 <= value <= 0x8000_0000,
                -0x4_0000_0000 <= extent <= 0x4_0000_0000,
        ;
        clamp_to_u32(floor_div(value as i128 * extent, range))
    }
}

} // verus!
