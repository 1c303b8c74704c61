//! Time-based easing between two values.
//!
//! An animation is a pure function of the clock: it has no state that ticks.
//! It starts `delay` after its start timestamp, lasts `animation_time` and
//! follows an ease-out-sine curve in between. Timestamps and durations are in
//! the host's time unit (milliseconds, say); values are fixed-point numbers or
//! pixels.

use vstd::prelude::*;
use crate::utils::{lemma_lerp_bounds, lemma_lerp_monotonic, lerp, lerp_value, UNIT};

verus! {

/// `t * (2d - t)`: the parabola through which the curve is evaluated. It
/// grows from `0` at `t = 0` to `d * d` at `t = d`.
pub open spec fn ease_arc(t: int, d: int) -> int {
    t * (2 * d - t)
}

/// The ease-out-sine curve `sin(t/d * pi/2)` as a fixed-point fraction, for
/// `0 <= t <= d` and `d > 0`.
///
/// The sine is taken in Bhaskara's rational form
/// `sin(x) = 16 x (pi - x) / (5 pi^2 - 4 x (pi - x))`, which for the quarter
/// turn `x = t/d * pi/2` is `4 a / (5 d^2 - a)` with `a = t (2d - t)`. The
/// quotient is rounded down.
pub open spec fn eased_ratio(t: int, d: int) -> int {
    ((UNIT as int) * 4 * ease_arc(t, d)) / (5 * d * d - ease_arc(t, d))
}

/// The value of an animation from `from` to `to`, `elapsed` after the end
/// of its delay.
///
/// Before the delay has passed the value is `from`; after the duration it is
/// `to`; in between it is interpolated along the eased curve. An animation
/// without duration is at `to` as soon as it starts.
pub open spec fn animation_value(elapsed: int, duration: int, from: int, to: int) -> int {
    if elapsed < 0 {
        from
    } else if elapsed > duration || duration == 0 {
        to
    } else {
        lerp_value(from, to, eased_ratio(elapsed, duration))
    }
}

/// Whether an animation has passed its end.
pub open spec fn animation_completed(elapsed: int, duration: int) -> bool {
    elapsed > duration
}

/// The arc is non-negative, at most `d * d`, and grows with `t`.
pub proof fn lemma_ease_arc(t1: int, t2: int, d: int)
    requires
        0 <= t1 <= t2 <= d,
    ensures
        0 <= ease_arc(t1, d) <= ease_arc(t2, d) <= d * d,
        ease_arc(0, d) == 0,
        ease_arc(d, d) == d * d,
{
    assert(0 <= t1 * (2 * d - t1)) by (nonlinear_arith)
        requires
            0 <= t1 <= d,
    ;
    assert(t2 * (2 * d - t2) - t1 * (2 * d - t1) == (t2 - t1) * (2 * d - t1 - t2))
        by (nonlinear_arith);
    assert(0 <= (t2 - t1) * (2 * d - t1 - t2)) by (nonlinear_arith)
        requires
            0 <= t1 <= t2 <= d,
    ;
    assert(d * d - t2 * (2 * d - t2) == (d - t2) * (d - t2)) by (nonlinear_arith);
    assert(0 <= (d - t2) * (d - t2)) by (nonlinear_arith);
    assert(d * (2 * d - d) == d * d) by (nonlinear_arith);
    assert(0 * (2 * d - 0) == 0) by (nonlinear_arith);
}

/// The eased curve starts at zero, ends at one and stays in between.
pub proof fn lemma_eased_ratio_bounds(t: int, d: int)
    requires
        0 <= t <= d,
        d > 0,
    ensures
        0 <= eased_ratio(t, d) <= UNIT,
        eased_ratio(0, d) == 0,
        eased_ratio(d, d) == UNIT,
{
    lemma_ease_arc(t, t, d);
    lemma_ease_arc(0, d, d);
    let a = ease_arc(t, d);
    let dd = d * d;
    assert(dd > 0) by (nonlinear_arith)
        requires
            d > 0,
            dd == d * d,
    ;
    assert(5 * d * d == 5 * dd) by (nonlinear_arith)
        requires
            dd == d * d,
    ;
    let den = 5 * dd - a;
    let num = (UNIT as int) * 4 * a;
    assert(den > 0);
    assert(num == 262144 * a && (UNIT as int) * den == 65536 * den) by (nonlinear_arith)
        requires
            num == (UNIT as int) * 4 * a,
            UNIT == 65536,
    ;
    assert(0 <= num / den <= UNIT as int) by (nonlinear_arith)
        requires
            den > 0,
            0 <= num <= (UNIT as int) * den,
    ;
    assert(((UNIT as int) * 4 * 0) / (5 * dd - 0) == 0) by (nonlinear_arith)
        requires
            dd > 0,
    ;
    assert(((UNIT as int) * 4 * dd) / (5 * dd - dd) == UNIT as int) by (nonlinear_arith)
        requires
            dd > 0,
    ;
}

/// The eased curve never decreases as time advances.
pub proof fn lemma_eased_ratio_monotonic(t1: int, t2: int, d: int)
    requires
        0 <= t1 <= t2 <= d,
        d > 0,
    ensures
        eased_ratio(t1, d) <= eased_ratio(t2, d),
{
    lemma_ease_arc(t1, t2, d);
    let a1 = ease_arc(t1, d);
    let a2 = ease_arc(t2, d);
    let dd = d * d;
    assert(dd > 0) by (nonlinear_arith)
        requires
            d > 0,
            dd == d * d,
    ;
    assert(5 * d * d == 5 * dd) by (nonlinear_arith)
        requires
            dd == d * d,
    ;
    let n1 = (UNIT as int) * 4 * a1;
    let n2 = (UNIT as int) * 4 * a2;
    let d1 = 5 * dd - a1;
    let d2 = 5 * dd - a2;
    assert(0 < d2 <= d1);
    assert(n1 == 262144 * a1 && n2 == 262144 * a2) by (nonlinear_arith)
        requires
            n1 == (UNIT as int) * 4 * a1,
            n2 == (UNIT as int) * 4 * a2,
            UNIT == 65536,
    ;
    vstd::arithmetic::div_mod::lemma_div_is_ordered(n1, n2, d1);
    if n2 / d1 > n2 / d2 {
        vstd::arithmetic::div_mod::lemma_div_is_ordered_by_denominator(n2, d2, d1);
    }
}

/// Before its delay has passed, an animation shows its start value.
pub proof fn lemma_value_before_start(
    now: int,
    start: int,
    delay: int,
    duration: int,
    from: int,
    to: int,
)
    requires
        now < start + delay,
    ensures
        animation_value(now - start - delay, duration, from, to) == from,
{
}

/// After its delay and duration have passed, an animation shows its end
/// value.
pub proof fn lemma_value_after_end(
    now: int,
    start: int,
    delay: int,
    duration: int,
    from: int,
    to: int,
)
    requires
        duration >= 0,
        now > start + delay + duration,
    ensures
        animation_value(now - start - delay, duration, from, to) == to,
        animation_completed(now - start - delay, duration),
{
}

/// The value of an animation never leaves the interval between its start
/// and end value.
pub proof fn lemma_value_within_endpoints(elapsed: int, duration: int, from: int, to: int)
    requires
        duration >= 0,
    ensures
        from <= to ==> from <= animation_value(elapsed, duration, from, to) <= to,
        to <= from ==> to <= animation_value(elapsed, duration, from, to) <= from,
{
    if 0 <= elapsed <= duration && duration > 0 {
        lemma_eased_ratio_bounds(elapsed, duration);
        lemma_lerp_bounds(from, to, eased_ratio(elapsed, duration));
    }
}

/// A rising animation never falls: of two moments, the later one shows the
/// value that is nearer to the end value. At the first moment of its run the
/// animation shows the start value, at the last the end value, so the curve
/// joins the two constant stretches around it without a jump.
pub proof fn lemma_value_monotonic(
    elapsed1: int,
    elapsed2: int,
    duration: int,
    from: int,
    to: int,
)
    requires
        duration >= 0,
        elapsed1 <= elapsed2,
        from <= to,
    ensures
        from <= animation_value(elapsed1, duration, from, to) <= animation_value(
            elapsed2,
            duration,
            from,
            to,
        ) <= to,
        duration > 0 ==> animation_value(0, duration, from, to) == from,
        animation_value(duration, duration, from, to) == to,
{
    lemma_value_within_endpoints(elapsed1, duration, from, to);
    lemma_value_within_endpoints(elapsed2, duration, from, to);
    if duration > 0 {
        lemma_eased_ratio_bounds(0, duration);
        lemma_eased_ratio_bounds(duration, duration);
        lemma_lerp_bounds(from, to, 0);
        if 0 <= elapsed1 && elapsed2 <= duration {
            lemma_eased_ratio_bounds(elapsed1, duration);
            lemma_eased_ratio_bounds(elapsed2, duration);
            lemma_eased_ratio_monotonic(elapsed1, elapsed2, duration);
            lemma_lerp_monotonic(
                from,
                to,
                eased_ratio(elapsed1, duration),
                eased_ratio(elapsed2, duration),
            );
        }
    }
}

/// The eased fraction of the way through an animation of length `d` at
/// time `t`.
pub fn ease_out_sine(t: u32, d: u32) -> (r: u32)
    requires
        t <= d,
        d > 0,
    ensures
        r as int == eased_ratio(t as int, d as int),
        r <= UNIT,
{
    proof {
        lemma_ease_arc(t as int, t as int, d as int);
        lemma_eased_ratio_bounds(t as int, d as int);
        assert(d * d <= 0xffff_ffff * 0xffff_ffff) by (nonlinear_arith)
            requires
                d <= 0xffff_ffff,
        ;
        assert(5 * (d as int) * (d as int) == 5 * (d * d)) by (nonlinear_arith);
    }
    let wide_t: u128 = t as u128;
    let wide_d: u128 = d as u128;
    let arc: u128 = wide_t * (2 * wide_d - wide_t);
    let square: u128 = wide_d * wide_d;
    let num: u128 = (UNIT as u128) * 4 * arc;
    let den: u128 = 5 * square - arc;
    (num / den) as u32
}

/// One evaluation of an animation at a fixed moment.
#[derive(Debug, Clone, Copy)]
pub struct Animation {
    timestamp: i128,
    animation_time: u32,
    start_state: u32,
    end_state: u32,
}

impl Animation {
    /// The time since the animation's delay ran out; negative while the
    /// delay is pending.
    pub closed spec fn elapsed(&self) -> int {
        self.timestamp as int
    }

    /// The length of the animation.
    pub closed spec fn duration(&self) -> int {
        self.animation_time as int
    }

    /// The value the animation starts from.
    pub closed spec fn from(&self) -> int {
        self.start_state as int
    }

    /// The value the animation ends at.
    pub closed spec fn to(&self) -> int {
        self.end_state as int
    }

    /// The animation that began at `start_timestamp`, waits for `delay`,
    /// then runs for `animation_time` from `start_state` to `end_state`,
    /// looked at at the moment `current_timestamp`.
    pub fn new(
        current_timestamp: u64,
        start_timestamp: u64,
        animation_time: u32,
        delay: u64,
        start_state: u32,
        end_state: u32,
    ) -> (a: Self)
        ensures
            a.elapsed() == current_timestamp - start_timestamp - delay,
            a.duration() == animation_time,
            a.from() == start_state,
            a.to() == end_state,
    {
        Animation {
            timestamp: current_timestamp as i128 - start_timestamp as i128 - delay as i128,
            animation_time,
            start_state,
            end_state,
        }
    }

    /// The animated value at the moment the animation was made for.
    pub fn get_current(&self) -> (v: u32)
        ensures
            v as int == animation_value(self.elapsed(), self.duration(), self.from(), self.to()),
    {
        if self.timestamp < 0 {
            return self.start_state;
        }
        if self.is_completed() || self.animation_time == 0 {
            return self.end_state;
        }
        let eased = ease_out_sine(self.timestamp as u32, self.animation_time);
        lerp(self.start_state, self.end_state, eased)
    }

    /// Whether the animation has reached its end value for good.
    pub fn is_completed(&self) -> (done: bool)
        ensures
            done == animation_completed(self.elapsed(), self.duration()),
    {
        self.timestamp > self.animation_time as i128
    }
}

} // verus!
