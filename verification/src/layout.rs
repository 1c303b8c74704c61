//! The geometry of a bar chart: how the bars share the width of the plot and
//! how high a bar stands.
//!
//! Widths are fractions of a pixel. They are kept exact, as numerators over
//! the number of bars, and only rounded down when a bar is placed.

use vstd::prelude::*;
use crate::utils::{clamp_to_u32, clamp_u32, floor_div};

verus! {

/// The horizontal room that the bars of a chart share.
#[derive(Debug, Clone, Copy, PartialEq, Eq, Structural)]
pub struct BarGrid {
    /// The width of the canvas.
    pub width: u32,
    /// The margins left and right of the plot.
    pub left: u32,
    pub right: u32,
    /// The room that the value axis takes left of the plot.
    pub axis_width: u32,
    /// The room between two bars.
    pub gap: u32,
    /// The least width of a bar.
    pub min_width: u32,
    /// The number of bars.
    pub count: u32,
}

impl BarGrid {
    /// Where the plot begins: behind the left margin and the value axis.
    pub open spec fn plot_left(self) -> int {
        self.left + self.axis_width
    }

    /// The width of the plot and one gap: the room of all bars, each taken
    /// with the gap behind it.
    pub open spec fn spread(self) -> int {
        self.width - self.plot_left() - self.right + self.gap
    }

    /// The room of all bars without their gaps: `count` times the width of
    /// a bar that is not held to the least width.
    pub open spec fn slack(self) -> int {
        self.spread() - self.gap * self.count
    }

    /// Whether the bars are too many for the plot: the gaps alone fill it.
    pub open spec fn crowded(self) -> bool {
        self.slack() < 0
    }

    /// Where the first bar begins. In a crowded plot it is moved by the
    /// width that a bar lacks, rounded towards zero.
    pub open spec fn first_x(self) -> int {
        if self.crowded() {
            clamp_u32(self.plot_left() - (-self.slack()) / (self.count as int))
        } else {
            self.plot_left()
        }
    }

    /// The distance from one bar to the next is `pitch_num / pitch_den`:
    /// the spread divided among the bars. In a crowded plot the spread is
    /// taken from the moved first bar and reduced by the width that a bar
    /// lacks.
    pub open spec fn pitch_num(self) -> int {
        if self.crowded() {
            (self.width - self.first_x() - self.right + self.gap) * self.count + self.slack()
        } else {
            self.spread()
        }
    }

    /// The denominator of the distance from one bar to the next.
    pub open spec fn pitch_den(self) -> int {
        if self.crowded() {
            self.count * self.count
        } else {
            self.count as int
        }
    }

    /// The left edge of bar `i`.
    pub open spec fn bar_x(self, i: int) -> int {
        clamp_u32((i * self.pitch_num()) / self.pitch_den() + self.first_x())
    }

    /// The width of every bar: its share of the plot, but not less than the
    /// least width.
    pub open spec fn bar_width(self) -> int {
        if self.slack() < self.min_width * self.count {
            self.min_width as int
        } else {
            clamp_u32(self.slack() / (self.count as int))
        }
    }

    /// Where the bars are neither crowded nor held to the least width, they
    /// tile the plot from left to right: the first begins where the plot
    /// begins, each ends at least a gap before the next begins, and the last
    /// ends inside the plot.
    pub proof fn lemma_bars_tile(self, i: int)
        requires
            self.count > 0,
            self.slack() >= self.min_width * self.count,
            self.plot_left() <= u32::MAX,
            0 <= i < self.count,
        ensures
            self.bar_x(0) == self.plot_left(),
            i + 1 < self.count ==> self.bar_x(i) + self.bar_width() + self.gap <= self.bar_x(i + 1),
            self.plot_left() <= self.bar_x(i),
            self.bar_x(i) + self.bar_width() <= self.width - self.right,
            self.bar_width() * self.count + self.gap * (self.count - 1) <= self.width
                - self.plot_left() - self.right,
    {
        let n = self.count as int;
        let s = self.spread();
        let k = self.slack();
        let g = self.gap as int;
        assert(self.min_width * self.count >= 0) by (nonlinear_arith);
        assert(g * n >= g) by (nonlinear_arith)
            requires
                g >= 0,
                n > 0,
        ;
        assert(s == k + g * n);
        let w = k / n;
        vstd::arithmetic::div_mod::lemma_fundamental_div_mod(k, n);
        vstd::arithmetic::div_mod::lemma_mod_bound(k, n);
        vstd::arithmetic::div_mod::lemma_div_pos_is_pos(k, n);
        assert(w * n <= k && w <= k) by (nonlinear_arith)
            requires
                k == n * w + k % n,
                0 <= k % n,
                n > 0,
                w >= 0,
        ;
        assert(s >= (w + g) * n) by (nonlinear_arith)
            requires
                s == k + g * n,
                w * n <= k,
        ;
        assert((0 * s) / n == 0);
        self.lemma_bar_inside(i, w);
        if i + 1 < n {
            self.lemma_bar_inside(i + 1, w);
            lemma_floor_step(i, s, n, w + g);
        }
        assert(w * n + g * (n - 1) <= s - g) by (nonlinear_arith)
            requires
                w * n <= k,
                s == k + g * n,
        ;
    }

    /// A bar that begins a whole number of pitches behind the plot's left
    /// edge ends inside the plot.
    proof fn lemma_bar_inside(self, j: int, w: int)
        requires
            self.count > 0,
            self.slack() >= 0,
            0 <= j < self.count,
            w == self.slack() / (self.count as int),
        ensures
            0 <= (j * self.spread()) / (self.count as int),
            (j * self.spread()) / (self.count as int) + w <= self.spread() - self.gap,
    {
        let n = self.count as int;
        let s = self.spread();
        let k = self.slack();
        let g = self.gap as int;
        assert(g * n >= 0) by (nonlinear_arith)
            requires
                g >= 0,
                n > 0,
        ;
        vstd::arithmetic::div_mod::lemma_fundamental_div_mod(k, n);
        vstd::arithmetic::div_mod::lemma_mod_bound(k, n);
        vstd::arithmetic::div_mod::lemma_fundamental_div_mod(j * s, n);
        vstd::arithmetic::div_mod::lemma_mod_bound(j * s, n);
        assert(0 <= j * s <= (n - 1) * s) by (nonlinear_arith)
            requires
                0 <= j <= n - 1,
                s >= 0,
        ;
        vstd::arithmetic::div_mod::lemma_div_pos_is_pos(j * s, n);
        let q = (j * s) / n;
        assert(q + w <= s - g) by (nonlinear_arith)
            requires
                j * s == n * q + (j * s) % n,
                0 <= (j * s) % n,
                j * s <= (n - 1) * s,
                k == n * w + k % n,
                0 <= k % n,
                s == k + g * n,
                n > 0,
        ;
    }

    /// The left edge of bar `i`.
    pub fn x_of(&self, i: u32) -> (x: u32)
        requires
            i < self.count,
        ensures
            x as int == self.bar_x(i as int),
    {
        let n: i128 = self.count as i128;
        let plot_left: i128 = self.left as i128 + self.axis_width as i128;
        let spread: i128 = self.width as i128 - plot_left - self.right as i128 + self.gap as i128;
        assert(self.gap * self.count <= 0xffff_ffff * 0xffff_ffff) by (nonlinear_arith)
            requires
                self.gap <= 0xffff_ffff,
                self.count <= 0xffff_ffff,
        ;
        let slack: i128 = spread - self.gap as i128 * n;
        if slack < 0 {
            let lack: i128 = (-slack) / n;
            let first: i128 = if plot_left - lack < 0 {
                0
            } else if plot_left - lack > 0xffff_ffff {
                0xffff_ffff
            } else {
                plot_left - lack
            };
            let reach: i128 = self.width as i128 - first - self.right as i128 + self.gap as i128;
            assert(-0x2_0000_0000 * 0xffff_ffff <= reach * n <= 0x2_0000_0000 * 0xffff_ffff
                && 0 < n * n <= 0xffff_ffff * 0xffff_ffff) by (nonlinear_arith)
                requires
                    -0x2_0000_0000 <= reach <= 0x2_0000_0000,
                    0 < n <= 0xffff_ffff,
            ;
            let num: i128 = reach * n + slack;
            let den: i128 = n * n;
            assert(-0x8_0000_0000_0000_0000 * 0x1_0000_0000 <= (i as i128) * num
                <= 0x8_0000_0000_0000_0000 * 0x1_0000_0000) by (nonlinear_arith)
                requires
                    0 <= i <= 0xffff_ffff,
                    -0x8_0000_0000_0000_0000 <= num <= 0x8_0000_0000_0000_0000,
            ;
            let along: i128 = floor_div(i as i128 * num, den);
            clamp_to_u32(along + first)
        } else {
            assert(0 <= (i as i128) * spread <= 0xffff_ffff * 0x2_0000_0000) by (nonlinear_arith)
                requires
                    0 <= i <= 0xffff_ffff,
                    0 <= spread <= 0x2_0000_0000,
            ;
            let along: i128 = floor_div(i as i128 * spread, n);
            clamp_to_u32(along + plot_left)
        }
    }

    /// The width of every bar.
    pub fn width_of_bar(&self) -> (w: u32)
        requires
            self.count > 0,
        ensures
            w as int == self.bar_width(),
    {
        let n: i128 = self.count as i128;
        let plot_left: i128 = self.left as i128 + self.axis_width as i128;
        let spread: i128 = self.width as i128 - plot_left - self.right as i128 + self.gap as i128;
        assert(self.gap * self.count <= 0xffff_ffff * 0xffff_ffff && self.min_width * self.count
            <= 0xffff_ffff * 0xffff_ffff) by (nonlinear_arith)
            requires
                self.gap <= 0xffff_ffff,
                self.min_width <= 0xffff_ffff,
                self.count <= 0xffff_ffff,
        ;
        let slack: i128 = spread - self.gap as i128 * n;
        if slack < self.min_width as i128 * n {
            self.min_width
        } else {
            assert(self.min_width * self.count >= 0) by (nonlinear_arith);
            clamp_to_u32(slack / n)
        }
    }
}

/// From one multiple of `s / n` to the next, the rounded value grows by at
/// least `unit` when `unit` fits below `s / n`.
proof fn lemma_floor_step(i: int, s: int, n: int, unit: int)
    requires
        n > 0,
        i >= 0,
        s >= unit * n,
    ensures
        ((i + 1) * s) / n >= (i * s) / n + unit,
{
    let q = (i * s) / n;
    vstd::arithmetic::div_mod::lemma_fundamental_div_mod(i * s, n);
    vstd::arithmetic::div_mod::lemma_mod_bound(i * s, n);
    assert((i + 1) * s >= (q + unit) * n) by (nonlinear_arith)
        requires
            i * s == n * q + (i * s) % n,
            0 <= (i * s) % n,
            s >= unit * n,
    ;
    vstd::arithmetic::div_mod::lemma_div_is_ordered((q + unit) * n, (i + 1) * s, n);
    vstd::arithmetic::div_mod::lemma_div_multiples_vanish(q + unit, n);
    assert((q + unit) * n == n * (q + unit)) by (nonlinear_arith);
}

/// The height of the plot: what the margins leave of the canvas. Not
/// positive when they leave nothing.
pub open spec fn plot_height(height: u32, top: u32, bottom: u32) -> int {
    height - top - bottom
}

/// The full height of a bar: the share of the plot height that its value has
/// of the largest value, rounded down, but not less than the least height.
/// Without a positive largest value every share is zero.
pub open spec fn full_bar_height(plot_height: int, value: int, max_value: int, min_height: int) -> int {
    let share = if max_value <= 0 {
        0
    } else {
        clamp_u32((plot_height * value) / max_value)
    };
    if share < min_height {
        min_height
    } else {
        share
    }
}

/// A part of a length: `length * fraction / UNIT`, rounded down.
pub open spec fn scaled(length: int, fraction: int) -> int {
    clamp_u32((length * fraction) / (crate::utils::UNIT as int))
}

/// The full height of a bar.
pub fn bar_height(plot_height: i64, value: i32, max_value: u32, min_height: u32) -> (h: u32)
    requires
        -0x2_0000_0000 <= plot_height <= 0xffff_ffff,
    ensures
        h as int == full_bar_height(
            plot_height as int,
            value as int,
            max_value as int,
            min_height as int,
        ),
{
    let share: u32 = if max_value == 0 {
        0
    } else {
        assert(-0x2_0000_0000 * 0x8000_0000 <= plot_height * value <= 0x2_0000_0000 * 0x8000_0000)
            by (nonlinear_arith)
            requires
                -0x2_0000_0000 <= plot_height <= 0xffff_ffff,
                -0x8000_0000 <= value <= 0x8000_0000,
        ;
        clamp_to_u32(floor_div(plot_height as i128 * value as i128, max_value as i128))
    };
    if share < min_height {
        min_height
    } else {
        share
    }
}

/// A part of a length: the length times a fixed-point fraction.
pub fn scale_length(length: u32, fraction: u32) -> (r: u32)
    ensures
        r as int == scaled(length as int, fraction as int),
{
    assert(0 <= length * fraction <= 0xffff_ffff * 0xffff_ffff) by (nonlinear_arith)
        requires
            length <= 0xffff_ffff,
            fraction <= 0xffff_ffff,
    ;
    clamp_to_u32((length as i128 * fraction as i128) / (crate::utils::UNIT as i128))
}

} // verus!
