//! The value axis: horizontal scale lines at "nice" values.
//!
//! The distance between two lines is the pixel height of the smallest scale
//! step, doubled until it reaches the least distance that the layout asks
//! for. One line is drawn per step, as long as it keeps clear of the top of
//! the plot, between a line at the top (the largest value) and one at the
//! bottom (zero).
//!
//! Distances are fractions of a pixel. They are kept exact, as numerators
//! over the largest data value, and only rounded down when a line is placed.

use vstd::prelude::*;
use crate::types::ScaleLineObject;
use crate::utils::{
    ceil_div, ceil_pow2, ceil_power_of_two, clamp_u32, lemma_ceil_pow2_bounds,
    lemma_ceil_pow2_is_least_power, NumUtils, PreAllocatedCollection,
};

verus! {

/// The thickness of a scale line in pixels.
pub const LINE_THICKNESS: u32 = 2;

/// The most scale lines a chart sets room aside for.
pub const MAX_SCALE_LINES: usize = 100;

/// Everything the scale lines of one frame depend on.
#[derive(Debug, Clone, Copy)]
pub struct AxisConfig {
    /// The size of the canvas.
    pub width: u32,
    pub height: u32,
    /// The margins above and below the plot.
    pub top: u32,
    pub bottom: u32,
    /// The largest data value, which the top of the plot stands for.
    pub max_value: u32,
    /// The room left of the plot where the lines start.
    pub axis_width: u32,
    /// The smallest step between two lines, in data units.
    pub smallest_scale: u32,
    /// The least distance between two lines, in pixels.
    pub min_pixel_distance: u32,
    /// The brightness of every second stepped line, of the others, and of
    /// the lines at the top and the bottom.
    pub major_intensity: u8,
    pub minor_intensity: u8,
    pub edge_intensity: u8,
}

impl AxisConfig {
    /// The height of the plot in pixels; not positive when the margins leave
    /// no room.
    pub open spec fn plot_height(self) -> int {
        self.height - self.top - self.bottom
    }

    /// The pixel height of the smallest scale step, times the largest value:
    /// `smallest_scale / max_value * plot_height` without the division.
    pub open spec fn base_step(self) -> int {
        self.smallest_scale * self.plot_height()
    }

    /// The least pixel distance, times the largest value.
    pub open spec fn wanted_step(self) -> int {
        self.min_pixel_distance * self.max_value
    }

    /// The factor by which the smallest step is widened: one when it is wide
    /// enough, else the least power of two that brings it to the least
    /// distance.
    pub open spec fn multiplier(self) -> int {
        if self.base_step() >= self.wanted_step() {
            1
        } else {
            ceil_pow2(ceil_div(self.wanted_step(), self.base_step()))
        }
    }

    /// The pixel distance between two lines, times the largest value.
    pub open spec fn step(self) -> int {
        self.base_step() * self.multiplier()
    }

    /// Whether no lines can be laid out: there is no plot, no data range or
    /// no scale, or the distance between two lines is below one pixel.
    pub open spec fn is_degenerate(self) -> bool {
        self.max_value == 0 || self.plot_height() <= 0 || self.smallest_scale == 0 || self.step()
            < self.max_value
    }

    /// The number of whole steps that fit into the plot:
    /// `floor(plot_height / distance)`.
    pub open spec fn line_steps(self) -> int {
        (self.plot_height() * self.max_value) / self.step()
    }

    /// Whether the line `i` steps above the bottom keeps clear of the top of
    /// the plot by two thirds of the least distance.
    pub open spec fn keeps(self, i: int) -> bool {
        3 * (self.plot_height() * self.max_value - self.step() * i) >= 2 * self.wanted_step()
    }

    /// The number of stepped lines that are drawn: the lines `1 ..= kept_steps`
    /// are those among the first `line_steps` that keep clear of the top.
    pub open spec fn kept_steps(self) -> int {
        let room = 3 * self.plot_height() * self.max_value - 2 * self.wanted_step();
        if room < 0 {
            0
        } else if room / (3 * self.step()) < self.line_steps() {
            room / (3 * self.step())
        } else {
            self.line_steps()
        }
    }

    /// The number of lines of the frame, the top and the bottom line
    /// included; zero when the axis is degenerate.
    pub open spec fn line_count(self) -> int {
        if self.is_degenerate() {
            0
        } else {
            self.kept_steps() + 2
        }
    }

    /// The data value of the line `i` steps above the bottom: its share of
    /// the plot height, applied to the largest value.
    pub open spec fn line_value(self, i: int) -> int {
        self.smallest_scale * self.multiplier() * i
    }

    /// Whether line `i` is emphasised: its value is a multiple of twice the
    /// widened step.
    pub open spec fn is_major(self, i: int) -> bool {
        self.line_value(i) % (self.smallest_scale * self.multiplier() * 2) == 0
    }

    /// The width of every line: from the axis to the right edge of the canvas.
    pub open spec fn line_width(self) -> int {
        clamp_u32(self.width - self.axis_width)
    }

    /// The line `i` steps above the bottom.
    pub open spec fn step_line(self, i: int) -> ScaleLineObject {
        ScaleLineObject {
            x: self.axis_width,
            y: clamp_u32(
                self.height - self.bottom - LINE_THICKNESS - (self.step() * i) / (
                self.max_value as int),
            ) as u32,
            width: self.line_width() as u32,
            height: LINE_THICKNESS,
            intensity: if self.is_major(i) {
                self.major_intensity
            } else {
                self.minor_intensity
            },
            value: self.line_value(i) as u32,
        }
    }

    /// The line at the top of the plot, which stands for the largest value.
    pub open spec fn top_line(self) -> ScaleLineObject {
        ScaleLineObject {
            x: self.axis_width,
            y: self.top,
            width: self.line_width() as u32,
            height: LINE_THICKNESS,
            intensity: self.edge_intensity,
            value: self.max_value,
        }
    }

    /// The line at the bottom of the plot, which stands for zero.
    pub open spec fn bottom_line(self) -> ScaleLineObject {
        ScaleLineObject {
            x: self.axis_width,
            y: clamp_u32(self.height - self.bottom - LINE_THICKNESS) as u32,
            width: self.line_width() as u32,
            height: LINE_THICKNESS,
            intensity: self.edge_intensity,
            value: 0,
        }
    }

    /// The lines of the frame: the top line, the stepped lines from the
    /// bottom up, the bottom line. None when the axis is degenerate.
    pub open spec fn scale_lines(self) -> Seq<ScaleLineObject> {
        Seq::new(
            self.line_count() as nat,
            |i: int|
                if i == 0 {
                    self.top_line()
                } else if i == self.kept_steps() + 1 {
                    self.bottom_line()
                } else {
                    self.step_line(i)
                },
        )
    }

    /// The step and the multiplier are positive when there is a plot, a
    /// scale and a data range, and the step stays below
    /// `2 * (wanted_step + base_step)`.
    pub proof fn lemma_step_bounds(self)
        requires
            self.max_value > 0,
            self.plot_height() > 0,
            self.smallest_scale > 0,
        ensures
            self.base_step() > 0,
            self.multiplier() >= 1,
            self.step() >= self.base_step(),
            self.step() >= self.wanted_step(),
            self.step() < 2 * (self.wanted_step() + self.base_step()),
            self.multiplier() > 1 ==> self.base_step() * (self.multiplier() / 2)
                < self.wanted_step(),
            exists|k: nat| self.multiplier() == vstd::arithmetic::power2::pow2(k),
    {
        let base = self.base_step();
        let wanted = self.wanted_step();
        assert(base > 0) by (nonlinear_arith)
            requires
                base == self.smallest_scale * self.plot_height(),
                self.smallest_scale > 0,
                self.plot_height() > 0,
        ;
        assert(wanted >= 0) by (nonlinear_arith)
            requires
                wanted == self.min_pixel_distance * self.max_value,
        ;
        if base >= wanted {
            vstd::arithmetic::power2::lemma2_to64();
            assert(self.multiplier() == vstd::arithmetic::power2::pow2(0));
            assert(base * 1 == base);
        } else {
            let ratio = ceil_div(wanted, base);
            let mult = self.multiplier();
            vstd::arithmetic::div_mod::lemma_fundamental_div_mod(wanted + base - 1, base);
            vstd::arithmetic::div_mod::lemma_mod_pos_bound(wanted + base - 1, base);
            assert(base * ratio >= wanted && base * ratio <= wanted + base - 1);
            assert(ratio >= 2) by (nonlinear_arith)
                requires
                    base * ratio >= wanted,
                    wanted > base,
                    base > 0,
            ;
            lemma_ceil_pow2_is_least_power(ratio);
            lemma_ceil_pow2_bounds(ratio);
            assert(base * mult >= base * ratio && base * mult < base * (2 * ratio) && base * mult
                >= base) by (nonlinear_arith)
                requires
                    base > 0,
                    ratio <= mult < 2 * ratio,
                    ratio >= 2,
            ;
            assert(base * (2 * ratio) == 2 * (base * ratio)) by (nonlinear_arith);
            assert(mult / 2 < ratio);
            assert(base * (mult / 2) <= base * (ratio - 1)) by (nonlinear_arith)
                requires
                    base > 0,
                    mult / 2 <= ratio - 1,
            ;
            assert(base * (ratio - 1) == base * ratio - base) by (nonlinear_arith);
        }
    }

    /// Among the first `line_steps` lines, the kept ones are exactly the lines
    /// `1 ..= kept_steps`; their values do not exceed the largest value and
    /// they lie inside the plot.
    pub proof fn lemma_kept_lines(self, i: int)
        requires
            !self.is_degenerate(),
            1 <= i <= self.line_steps(),
        ensures
            self.keeps(i) <==> i <= self.kept_steps(),
            0 <= self.kept_steps() <= self.line_steps(),
            0 < self.line_value(i) <= self.max_value,
            0 <= (self.step() * i) / (self.max_value as int) <= self.plot_height(),
    {
        self.lemma_step_bounds();
        let step = self.step();
        let span = self.plot_height() * self.max_value;
        let room = 3 * self.plot_height() * self.max_value - 2 * self.wanted_step();
        assert(room == 3 * span - 2 * self.wanted_step()) by (nonlinear_arith)
            requires
                span == self.plot_height() * self.max_value,
                room == 3 * self.plot_height() * self.max_value - 2 * self.wanted_step(),
        ;
        assert(span > 0) by (nonlinear_arith)
            requires
                span == self.plot_height() * self.max_value,
                self.plot_height() > 0,
                self.max_value > 0,
        ;
        vstd::arithmetic::div_mod::lemma_fundamental_div_mod(span, step);
        vstd::arithmetic::div_mod::lemma_mod_pos_bound(span, step);
        vstd::arithmetic::div_mod::lemma_div_pos_is_pos(span, step);
        assert(step * i <= span) by (nonlinear_arith)
            requires
                step > 0,
                1 <= i <= span / step,
                span == step * (span / step) + span % step,
                0 <= span % step,
        ;
        if room >= 0 {
            let limit = room / (3 * step);
            vstd::arithmetic::div_mod::lemma_fundamental_div_mod(room, 3 * step);
            vstd::arithmetic::div_mod::lemma_mod_pos_bound(room, 3 * step);
            vstd::arithmetic::div_mod::lemma_div_pos_is_pos(room, 3 * step);
            assert((3 * step) * i <= room <==> i <= limit) by (nonlinear_arith)
                requires
                    step > 0,
                    room == (3 * step) * limit + room % (3 * step),
                    0 <= room % (3 * step) < 3 * step,
            ;
            assert((3 * step) * i == 3 * (step * i)) by (nonlinear_arith);
        } else {
            assert(step * i > 0) by (nonlinear_arith)
                requires
                    step > 0,
                    i >= 1,
            ;
        }
        let unit = self.smallest_scale * self.multiplier();
        assert(unit > 0) by (nonlinear_arith)
            requires
                unit == self.smallest_scale * self.multiplier(),
                self.smallest_scale > 0,
                self.multiplier() >= 1,
        ;
        assert(step == unit * self.plot_height()) by (nonlinear_arith)
            requires
                step == (self.smallest_scale * self.plot_height()) * self.multiplier(),
                unit == self.smallest_scale * self.multiplier(),
        ;
        assert(0 < unit * i <= self.max_value) by (nonlinear_arith)
            requires
                (unit * self.plot_height()) * i <= self.plot_height() * self.max_value,
                self.plot_height() > 0,
                unit > 0,
                i >= 1,
        ;
        vstd::arithmetic::div_mod::lemma_div_is_ordered(step * i, span, self.max_value as int);
        vstd::arithmetic::div_mod::lemma_div_multiples_vanish(
            self.plot_height(),
            self.max_value as int,
        );
        assert(span == self.max_value * self.plot_height()) by (nonlinear_arith)
            requires
                span == self.plot_height() * self.max_value,
        ;
        assert(step * i >= 0) by (nonlinear_arith)
            requires
                step > 0,
                i >= 1,
        ;
        vstd::arithmetic::div_mod::lemma_div_pos_is_pos(step * i, self.max_value as int);
    }

    /// The distance between two lines is the smallest step times a power of
    /// two, it is at least the least distance, and no smaller power of two
    /// would reach it.
    pub proof fn lemma_step_is_least_nice(self)
        requires
            !self.is_degenerate(),
        ensures
            exists|k: nat| self.multiplier() == vstd::arithmetic::power2::pow2(k),
            self.step() == self.base_step() * self.multiplier(),
            self.step() >= self.min_pixel_distance * self.max_value,
            self.multiplier() > 1 ==> self.base_step() * (self.multiplier() / 2)
                < self.min_pixel_distance * self.max_value,
    {
        self.lemma_step_bounds();
    }

    /// Every second stepped line is emphasised: line `i` is a major line
    /// exactly if `i` is even.
    pub proof fn lemma_major_lines(self, i: int)
        requires
            !self.is_degenerate(),
            i >= 0,
        ensures
            self.is_major(i) <==> i % 2 == 0,
    {
        self.lemma_step_bounds();
        let unit = self.smallest_scale * self.multiplier();
        let k = i / 2;
        assert(unit > 0) by (nonlinear_arith)
            requires
                unit == self.smallest_scale * self.multiplier(),
                self.smallest_scale > 0,
                self.multiplier() >= 1,
        ;
        assert(self.smallest_scale * self.multiplier() * 2 == unit * 2);
        assert(self.line_value(i) == unit * i);
        if i % 2 == 0 {
            assert(unit * i == k * (unit * 2) + 0) by (nonlinear_arith)
                requires
                    i == 2 * k,
            ;
            vstd::arithmetic::div_mod::lemma_fundamental_div_mod_converse(unit * i, unit * 2, k, 0);
        } else {
            assert(unit * i == k * (unit * 2) + unit) by (nonlinear_arith)
                requires
                    i == 2 * k + 1,
            ;
            vstd::arithmetic::div_mod::lemma_fundamental_div_mod_converse(
                unit * i,
                unit * 2,
                k,
                unit,
            );
        }
    }

    /// Unless the axis is degenerate, the first line stands for the largest
    /// value and the last for zero.
    pub proof fn lemma_edge_lines(self)
        requires
            !self.is_degenerate(),
        ensures
            self.scale_lines().len() >= 2,
            self.scale_lines().first().value == self.max_value,
            self.scale_lines().first().y == self.top,
            self.scale_lines().last().value == 0,
    {
        self.lemma_step_bounds();
        let span = self.plot_height() * self.max_value;
        assert(span >= 0) by (nonlinear_arith)
            requires
                span == self.plot_height() * self.max_value,
                self.plot_height() > 0,
        ;
        vstd::arithmetic::div_mod::lemma_div_pos_is_pos(span, self.step());
        let room = 3 * self.plot_height() * self.max_value - 2 * self.wanted_step();
        if room >= 0 {
            vstd::arithmetic::div_mod::lemma_div_pos_is_pos(room, 3 * self.step());
        }
    }

    /// Works out the step between two lines, the value of one step and the
    /// number of stepped lines; nothing when the axis is degenerate.
    fn measure(&self) -> (m: Option<AxisMeasure>)
        ensures
            m is None <==> self.is_degenerate(),
            m matches Some(f) ==> {
                &&& f.step as int == self.step()
                &&& f.unit as int == self.smallest_scale * self.multiplier()
                &&& f.kept as int == self.kept_steps()
                &&& f.kept as int <= self.line_steps()
                &&& 0 < f.unit <= f.step < 0x8_0000_0000_0000_0000
            },
    {
        let plot_height: i64 = self.height as i64 - self.top as i64 - self.bottom as i64;
        if self.max_value == 0 || plot_height <= 0 || self.smallest_scale == 0 {
            return None;
        }
        proof {
            self.lemma_step_bounds();
        }
        assert(self.smallest_scale * plot_height <= 0xffff_ffff * 0xffff_ffff
            && self.min_pixel_distance * self.max_value <= 0xffff_ffff * 0xffff_ffff && plot_height
            * self.max_value <= 0xffff_ffff * 0xffff_ffff) by (nonlinear_arith)
            requires
                self.smallest_scale <= 0xffff_ffff,
                self.min_pixel_distance <= 0xffff_ffff,
                self.max_value <= 0xffff_ffff,
                0 < plot_height <= 0xffff_ffff,
        ;
        let base: u128 = self.smallest_scale as u128 * plot_height as u128;
        let wanted: u128 = self.min_pixel_distance as u128 * self.max_value as u128;
        let mult: u128 = if base >= wanted {
            1
        } else {
            ceil_power_of_two((wanted + base - 1) / base)
        };
        let step: u128 = base * mult;
        if step < self.max_value as u128 {
            return None;
        }
        assert(self.smallest_scale * mult == self.smallest_scale * self.multiplier());
        assert(0 < self.smallest_scale * mult <= step) by (nonlinear_arith)
            requires
                step == (self.smallest_scale * plot_height) * mult,
                self.smallest_scale >= 1,
                plot_height >= 1,
                mult >= 1,
        ;
        let unit: u128 = self.smallest_scale as u128 * mult;
        let span: u128 = plot_height as u128 * self.max_value as u128;
        let steps: u128 = span / step;
        proof {
            vstd::arithmetic::div_mod::lemma_div_is_ordered_by_denominator(
                span as int,
                1,
                step as int,
            );
            assert(3 * self.plot_height() * self.max_value == 3 * span) by (nonlinear_arith)
                requires
                    span == self.plot_height() * self.max_value,
            ;
        }
        let kept: u128 = if 3 * span < 2 * wanted {
            0
        } else {
            let limit: u128 = (3 * span - 2 * wanted) / (3 * step);
            if limit < steps {
                limit
            } else {
                steps
            }
        };
        Some(AxisMeasure { step, unit, kept: kept as u64 })
    }

    /// The number of lines that [`Self::calculate_scale_lines`] lays out.
    pub fn count_lines(&self) -> (n: u64)
        ensures
            n as int == self.line_count(),
            n <= 0x1_0000_0000_0000_0001,
    {
        match self.measure() {
            None => 0,
            Some(f) => {
                assert(f.kept <= self.plot_height() * self.max_value) by {
                    vstd::arithmetic::div_mod::lemma_div_is_ordered_by_denominator(
                        self.plot_height() * self.max_value,
                        1,
                        self.step(),
                    );
                    self.lemma_step_bounds();
                    assert(self.plot_height() * self.max_value >= 0) by (nonlinear_arith)
                        requires
                            self.plot_height() > 0,
                    ;
                }
                assert(self.plot_height() * self.max_value <= 0xffff_ffff * 0xffff_ffff)
                    by (nonlinear_arith)
                    requires
                        self.max_value <= 0xffff_ffff,
                        0 < self.plot_height() <= 0xffff_ffff,
                ;
                f.kept + 2
            },
        }
    }

    /// Lays out the scale lines of the frame in `lines`, which is resized to
    /// their number. A degenerate axis has no lines.
    pub fn calculate_scale_lines(&self, lines: &mut PreAllocatedCollection<ScaleLineObject>)
        requires
            old(lines).wf(),
            self.line_count() <= old(lines).capacity(),
        ensures
            final(lines).wf(),
            final(lines).capacity() == old(lines).capacity(),
            final(lines)@ == self.scale_lines(),
    {
        let figures = match self.measure() {
            None => {
                lines.set_size(0);
                assert(lines@ =~= self.scale_lines());
                return ;
            },
            Some(figures) => figures,
        };
        proof {
            lines.lemma_len_within_capacity();
        }
        let kept: usize = figures.kept as usize;
        let line_width: u32 = (self.width as i64 - self.axis_width as i64).to_u32();
        let floor: i64 = self.height as i64 - self.bottom as i64 - LINE_THICKNESS as i64;
        lines.set_size(kept + 2);
        lines.set(
            0,
            ScaleLineObject {
                x: self.axis_width,
                y: self.top,
                width: line_width,
                height: LINE_THICKNESS,
                intensity: self.edge_intensity,
                value: self.max_value,
            },
        );
        lines.set(
            kept + 1,
            ScaleLineObject {
                x: self.axis_width,
                y: floor.to_u32(),
                width: line_width,
                height: LINE_THICKNESS,
                intensity: self.edge_intensity,
                value: 0,
            },
        );
        let mut i: usize = 1;
        while i <= kept
            invariant
                1 <= i <= kept + 1,
                kept + 2 <= usize::MAX,
                !self.is_degenerate(),
                kept as int == self.kept_steps(),
                kept as int <= self.line_steps(),
                figures.step as int == self.step(),
                figures.unit as int == self.smallest_scale * self.multiplier(),
                0 < figures.unit <= figures.step < 0x8_0000_0000_0000_0000,
                line_width as int == self.line_width(),
                floor == self.height - self.bottom - LINE_THICKNESS,
                lines.wf(),
                lines.capacity() == old(lines).capacity(),
                lines@.len() == kept + 2,
                lines@[0] == self.top_line(),
                lines@[kept + 1] == self.bottom_line(),
                forall|j: int| 1 <= j < i ==> lines@[j] == self.step_line(j),
            decreases kept + 1 - i,
        {
            proof {
                self.lemma_kept_lines(i as int);
                self.lemma_step_bounds();
                assert(self.line_value(i as int) == figures.unit * i);
                assert(figures.unit * 2 == self.smallest_scale * self.multiplier() * 2);
                vstd::arithmetic::div_mod::lemma_fundamental_div_mod(
                    self.step() * i,
                    self.max_value as int,
                );
                vstd::arithmetic::div_mod::lemma_mod_pos_bound(
                    self.step() * i,
                    self.max_value as int,
                );
                assert(self.step() * i <= self.plot_height() * self.max_value
                    + self.max_value) by (nonlinear_arith)
                    requires
                        0 <= (self.step() * i) / (self.max_value as int) <= self.plot_height(),
                        self.max_value > 0,
                        self.step() * i == (self.max_value as int) * ((self.step() * i) / (
                        self.max_value as int)) + (self.step() * i) % (self.max_value as int),
                        (self.step() * i) % (self.max_value as int) < self.max_value,
                ;
                assert(self.plot_height() * self.max_value <= 0xffff_ffff * 0xffff_ffff)
                    by (nonlinear_arith)
                    requires
                        self.max_value <= 0xffff_ffff,
                        0 < self.plot_height() <= 0xffff_ffff,
                ;
            }
            let value: u128 = figures.unit * i as u128;
            let offset: u128 = figures.step * i as u128 / self.max_value as u128;
            let major: bool = value % (figures.unit * 2) == 0;
            lines.set(
                i,
                ScaleLineObject {
                    x: self.axis_width,
                    y: (floor - offset as i64).to_u32(),
                    width: line_width,
                    height: LINE_THICKNESS,
                    intensity: if major {
                        self.major_intensity
                    } else {
                        self.minor_intensity
                    },
                    value: value as u32,
                },
            );
            i += 1;
        }
        assert(lines@ =~= self.scale_lines());
    }
}

/// The figures of an axis that is not degenerate.
struct AxisMeasure {
    /// The pixel distance between two lines, times the largest value.
    step: u128,
    /// The data value of one step.
    unit: u128,
    /// The number of stepped lines.
    kept: u64,
}

} // verus!
