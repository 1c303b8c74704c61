//! A plain renderer of bars: no axis, no animation, no interaction. Every
//! frame it clears its pixel buffer and draws one rectangle per data point,
//! in colors that wave with time.
//!
//! The value of a data point is the fixed-point fraction of the plot height
//! that its bar covers. The wave is handed in by the caller, as three
//! fixed-point numbers between minus one and one, one per color channel.

use vstd::prelude::*;
use crate::bar_chart::{values_of, DataPoint};
use crate::layout::{bar_height, full_bar_height, plot_height, BarGrid};
use crate::raster::{clear_background, draw_rect, fill_canvas, fill_rect, Color};
use crate::types::Positioning;
use crate::utils::{clamp_to_u32, clamp_u32, floor_div, UNIT};

verus! {

/// How much further along the wave each bar is than the one before it, in
/// steps of a color channel.
pub const WAVE_STEP: u32 = 50;

/// The height of the wave, in steps of a color channel.
pub const WAVE_HEIGHT: u32 = 100;

/// One channel of the color of bar `i`: its place along the wave plus the
/// wave itself, cut off at the ends of the channel's range.
pub open spec fn wave_channel(i: int, wave: int) -> u8 {
    let level = (i * WAVE_STEP * UNIT + wave * WAVE_HEIGHT) / (UNIT as int);
    if level < 0 {
        0u8
    } else if level > 255 {
        255u8
    } else {
        level as u8
    }
}

/// The color of bar `i` under the given wave.
pub open spec fn wave_color(i: int, wave_r: i32, wave_g: i32, wave_b: i32) -> Color {
    Color {
        r: wave_channel(i, wave_r as int),
        g: wave_channel(i, wave_g as int),
        b: wave_channel(i, wave_b as int),
        a: 255,
    }
}

/// What a renderer is made of.
pub struct GraphRendererView {
    /// The fraction of the plot height of every bar.
    pub values: Seq<i32>,
    /// The pixel buffer: four bytes per pixel of the canvas.
    pub pixels: Seq<u8>,
    /// The size of the canvas.
    pub width: u32,
    pub height: u32,
    pub background_color: Color,
    /// The margins around the plot.
    pub positioning: Positioning,
    /// The room between two bars and the least size of a bar.
    pub gap: u32,
    pub min_width: u32,
    pub min_height: u32,
}

impl GraphRendererView {
    /// What holds of every renderer: the buffer covers the canvas.
    pub open spec fn inv(self) -> bool {
        &&& self.values.len() <= u32::MAX
        &&& self.pixels.len() == self.width * self.height * 4
    }

    /// The room that the bars share.
    pub open spec fn grid(self) -> BarGrid {
        BarGrid {
            width: self.width,
            left: self.positioning.left,
            right: self.positioning.right,
            axis_width: 0,
            gap: self.gap,
            min_width: self.min_width,
            count: self.values.len() as u32,
        }
    }

    /// The height of bar `i`: its fraction of the plot height, but not less
    /// than the least height.
    pub open spec fn bar_height(self, i: int) -> int {
        full_bar_height(
            plot_height(self.height, self.positioning.top, self.positioning.bottom),
            self.values[i] as int,
            UNIT as int,
            self.min_height as int,
        )
    }

    /// The buffer after the first `n` bars were drawn, in order: the bars
    /// stand side by side on the bottom of the plot.
    pub open spec fn with_bars(
        self,
        pixels: Seq<u8>,
        n: int,
        wave_r: i32,
        wave_g: i32,
        wave_b: i32,
    ) -> Seq<u8>
        decreases n,
    {
        if n <= 0 {
            pixels
        } else {
            fill_rect(
                self.with_bars(pixels, n - 1, wave_r, wave_g, wave_b),
                self.width as int,
                self.height as int,
                self.grid().bar_x(n - 1),
                clamp_u32(self.height - self.positioning.bottom - self.bar_height(n - 1)),
                self.grid().bar_width(),
                self.bar_height(n - 1),
                wave_color(n - 1, wave_r, wave_g, wave_b),
            )
        }
    }

    /// The renderer after a frame: the background, then the bars.
    pub open spec fn updated(self, wave_r: i32, wave_g: i32, wave_b: i32) -> GraphRendererView {
        GraphRendererView {
            pixels: self.with_bars(
                fill_canvas(
                    self.pixels,
                    self.width as int,
                    self.height as int,
                    self.background_color,
                ),
                self.values.len() as int,
                wave_r,
                wave_g,
                wave_b,
            ),
            ..self
        }
    }
}

/// A renderer with its pixel buffer.
pub struct GraphRenderer {
    data: Vec<DataPoint>,
    pixels: Vec<u8>,
    width: u32,
    height: u32,
    background_color: Color,
    bottom: u32,
    top: u32,
    left: u32,
    right: u32,
    gap: u32,
    min_width: u32,
    min_height: u32,
}

impl View for GraphRenderer {
    type V = GraphRendererView;

    closed spec fn view(&self) -> GraphRendererView {
        GraphRendererView {
            values: values_of(self.data@),
            pixels: self.pixels@,
            width: self.width,
            height: self.height,
            background_color: self.background_color,
            positioning: Positioning {
                bottom: self.bottom,
                top: self.top,
                left: self.left,
                right: self.right,
            },
            gap: self.gap,
            min_width: self.min_width,
            min_height: self.min_height,
        }
    }
}

/// One channel of the color of bar `i`.
fn channel_of(i: u32, wave: i32) -> (c: u8)
    ensures
        c == wave_channel(i as int, wave as int),
{
    assert(0 <= i * WAVE_STEP * UNIT <= 0xffff_ffff * 50 * 65536 && -0x8000_0000 * 100 <= wave
        * WAVE_HEIGHT <= 0x8000_0000 * 100) by (nonlinear_arith)
        requires
            0 <= i <= 0xffff_ffff,
            -0x8000_0000 <= wave <= 0x8000_0000,
            WAVE_STEP == 50,
            WAVE_HEIGHT == 100,
            UNIT == 65536,
    ;
    let level: i128 = floor_div(
        i as i128 * WAVE_STEP as i128 * UNIT as i128 + wave as i128 * WAVE_HEIGHT as i128,
        UNIT as i128,
    );
    if level < 0 {
        0
    } else if level > 255 {
        255
    } else {
        level as u8
    }
}

impl GraphRenderer {
    /// What holds of every renderer that this module hands out.
    pub closed spec fn wf(&self) -> bool {
        self@.inv()
    }

    /// A renderer of the given data on a canvas of the given size, with a
    /// cleared buffer.
    pub fn new(
        data: Vec<DataPoint>,
        width: u32,
        height: u32,
        background_color: Color,
        bottom: u32,
        top: u32,
        left: u32,
        right: u32,
        gap: u32,
        min_width: u32,
        min_height: u32,
    ) -> (renderer: GraphRenderer)
        requires
            data@.len() <= u32::MAX,
            width * height * 4 <= usize::MAX,
        ensures
            renderer.wf(),
            renderer@ == (GraphRendererView {
                values: values_of(data@),
                pixels: Seq::new((width * height * 4) as nat, |i: int| 0u8),
                width,
                height,
                background_color,
                positioning: Positioning { bottom, top, left, right },
                gap,
                min_width,
                min_height,
            }),
    {
        assert(width * height * 4 == (width * height) * 4) by (nonlinear_arith);
        assert(0 <= width * height <= width * height * 4) by (nonlinear_arith)
            requires
                width >= 0,
                height >= 0,
        ;
        let size: usize = width as usize * height as usize * 4;
        let pixels: Vec<u8> = vec![0u8; size];
        let renderer = GraphRenderer {
            data,
            pixels,
            width,
            height,
            background_color,
            bottom,
            top,
            left,
            right,
            gap,
            min_width,
            min_height,
        };
        assert(renderer@.pixels =~= Seq::new((width * height * 4) as nat, |i: int| 0u8));
        renderer
    }

    /// The pixel buffer.
    pub fn pixels(&self) -> (pixels: &Vec<u8>)
        ensures
            pixels@ == self@.pixels,
    {
        &self.pixels
    }

    /// The width of the canvas in pixels.
    pub fn get_width(&self) -> (width: u32)
        ensures
            width == self@.width,
    {
        self.width
    }

    /// The height of the canvas in pixels.
    pub fn get_height(&self) -> (height: u32)
        ensures
            height == self@.height,
    {
        self.height
    }

    /// Gives the canvas another size and clears the buffer.
    pub fn resize(&mut self, width: u32, height: u32)
        requires
            old(self).wf(),
            width * height * 4 <= usize::MAX,
        ensures
            final(self).wf(),
            final(self)@ == (GraphRendererView {
                width,
                height,
                pixels: Seq::new((width * height * 4) as nat, |i: int| 0u8),
                ..old(self)@
            }),
    {
        assert(width * height * 4 == (width * height) * 4) by (nonlinear_arith);
        assert(0 <= width * height <= width * height * 4) by (nonlinear_arith)
            requires
                width >= 0,
                height >= 0,
        ;
        self.width = width;
        self.height = height;
        let size: usize = width as usize * height as usize * 4;
        self.pixels = vec![0u8; size];
        assert(self@.pixels =~= Seq::new((width * height * 4) as nat, |i: int| 0u8));
    }

    /// Fills a rectangle of the canvas, clipped to the canvas.
    pub fn draw_rect(&mut self, x: u32, y: u32, width: u32, height: u32, color: Color)
        requires
            old(self).wf(),
        ensures
            final(self).wf(),
            final(self)@ == (GraphRendererView {
                pixels: fill_rect(
                    old(self)@.pixels,
                    old(self)@.width as int,
                    old(self)@.height as int,
                    x as int,
                    y as int,
                    width as int,
                    height as int,
                    color,
                ),
                ..old(self)@
            }),
    {
        draw_rect(&mut self.pixels, self.width, self.height, x, y, width, height, &color);
    }

    /// Draws the bars.
    fn draw_bars(&mut self, wave_r: i32, wave_g: i32, wave_b: i32)
        requires
            old(self).wf(),
        ensures
            final(self).wf(),
            final(self)@ == (GraphRendererView {
                pixels: old(self)@.with_bars(
                    old(self)@.pixels,
                    old(self)@.values.len() as int,
                    wave_r,
                    wave_g,
                    wave_b,
                ),
                ..old(self)@
            }),
    {
        let ghost before = *self;
        let ghost view = self@;
        let count = self.data.len();
        let grid = BarGrid {
            width: self.width,
            left: self.left,
            right: self.right,
            axis_width: 0,
            gap: self.gap,
            min_width: self.min_width,
            count: count as u32,
        };
        let room: i64 = self.height as i64 - self.top as i64 - self.bottom as i64;
        let width: u32 = if count > 0 {
            grid.width_of_bar()
        } else {
            0
        };
        let mut i: usize = 0;
        while i < count
            invariant
                i <= count,
                count == view.values.len(),
                before.wf(),
                view == before@,
                grid == view.grid(),
                room == plot_height(
                    view.height,
                    view.positioning.top,
                    view.positioning.bottom,
                ),
                count > 0 ==> width == grid.bar_width(),
                *self == (GraphRenderer { pixels: self.pixels, ..before }),
                self.pixels@.len() == view.pixels.len(),
                self.pixels@ == view.with_bars(view.pixels, i as int, wave_r, wave_g, wave_b),
            decreases count - i,
        {
            let height = bar_height(room, self.data[i].value, UNIT, self.min_height);
            let color = Color {
                r: channel_of(i as u32, wave_r),
                g: channel_of(i as u32, wave_g),
                b: channel_of(i as u32, wave_b),
                a: 255,
            };
            assert(view.values[i as int] == self.data@[i as int].value);
            draw_rect(
                &mut self.pixels,
                self.width,
                self.height,
                grid.x_of(i as u32),
                clamp_to_u32(self.height as i128 - self.bottom as i128 - height as i128),
                width,
                height,
                &color,
            );
            i += 1;
        }
    }

    /// Draws a frame: see [`GraphRendererView::updated`].
    pub fn update_pixels(&mut self, wave_r: i32, wave_g: i32, wave_b: i32)
        requires
            old(self).wf(),
        ensures
            final(self).wf(),
            final(self)@ == old(self)@.updated(wave_r, wave_g, wave_b),
    {
        clear_background(&mut self.pixels, self.width, self.height, &self.background_color);
        let ghost cleared = self@;
        self.draw_bars(wave_r, wave_g, wave_b);
        proof {
            lemma_with_bars_of(cleared, old(self)@, cleared.pixels, cleared.values.len() as int, wave_r, wave_g, wave_b);
        }
    }
}

/// The drawing of the bars depends on the buffer it starts from, not on the
/// buffer of the renderer.
proof fn lemma_with_bars_of(
    a: GraphRendererView,
    b: GraphRendererView,
    pixels: Seq<u8>,
    n: int,
    wave_r: i32,
    wave_g: i32,
    wave_b: i32,
)
    requires
        a == (GraphRendererView { pixels: a.pixels, ..b }),
    ensures
        a.with_bars(pixels, n, wave_r, wave_g, wave_b) == b.with_bars(
            pixels,
            n,
            wave_r,
            wave_g,
            wave_b,
        ),
    decreases n,
{
    if n > 0 {
        lemma_with_bars_of(a, b, pixels, n - 1, wave_r, wave_g, wave_b);
    }
}

} // verus!
