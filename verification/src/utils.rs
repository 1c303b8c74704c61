//! Number helpers shared by the whole crate: saturating conversions to pixel
//! coordinates, rounding up to a power of two, fixed-point interpolation and
//! a fixed-capacity buffer.
//!
//! Fractions (scale factors, blend factors, progress ratios) are fixed-point
//! numbers with sixteen fractional bits: [`UNIT`] stands for one.

use vstd::prelude::*;

verus! {

/// The fixed-point representation of the value one.
pub const UNIT: u32 = 65536;

/// `v` brought into the range of `u32`: negative values become zero, values
/// above `u32::MAX` become `u32::MAX`.
pub open spec fn clamp_u32(v: int) -> int {
    if v < 0 {
        0
    } else if v > u32::MAX as int {
        u32::MAX as int
    } else {
        v
    }
}

/// The smallest power of two that is at least `n`; zero when `n` is not
/// positive.
pub open spec fn ceil_pow2(n: int) -> int
    decreases n,
{
    if n <= 0 {
        0
    } else if n == 1 {
        1
    } else {
        2 * ceil_pow2((n + 1) / 2)
    }
}

/// `ceil_pow2(n)` lies in `n ..= 2n - 1` for every positive `n`.
pub proof fn lemma_ceil_pow2_bounds(n: int)
    requires
        n >= 1,
    ensures
        n <= ceil_pow2(n) < 2 * n,
    decreases n,
{
    if n > 1 {
        lemma_ceil_pow2_bounds((n + 1) / 2);
    }
}

/// `ceil_pow2(n)` is a power of two whose half is below `n`: it is the least
/// power of two that reaches `n`.
pub proof fn lemma_ceil_pow2_is_least_power(n: int)
    requires
        n >= 1,
    ensures
        exists|k: nat| ceil_pow2(n) == vstd::arithmetic::power2::pow2(k),
        ceil_pow2(n) >= n,
        ceil_pow2(n) > 1 ==> ceil_pow2(n) / 2 < n,
    decreases n,
{
    lemma_ceil_pow2_bounds(n);
    if n == 1 {
        vstd::arithmetic::power2::lemma2_to64();
        assert(ceil_pow2(n) == vstd::arithmetic::power2::pow2(0));
    } else {
        let m = (n + 1) / 2;
        lemma_ceil_pow2_is_least_power(m);
        let k = choose|k: nat| ceil_pow2(m) == vstd::arithmetic::power2::pow2(k);
        vstd::arithmetic::power2::lemma_pow2_unfold((k + 1) as nat);
        assert(ceil_pow2(n) == vstd::arithmetic::power2::pow2((k + 1) as nat));
        lemma_ceil_pow2_bounds(m);
    }
}

/// Integers that can be turned into pixel coordinates.
pub trait NumUtils {
    /// The mathematical value of the number.
    spec fn value(&self) -> int;

    /// The number as a `u32`, saturating at both ends of the range.
    fn to_u32(&self) -> (r: u32)
        ensures
            r as int == clamp_u32(self.value()),
    ;

    /// The smallest power of two that is at least the number, or zero when
    /// the number is not positive.
    fn ceil_nearest_power_2(&self) -> (r: u64)
        ensures
            r as int == ceil_pow2(self.value()),
    ;
}

impl NumUtils for i32 {
    open spec fn value(&self) -> int {
        *self as int
    }

    fn to_u32(&self) -> (r: u32) {
        if *self < 0 {
            0
        } else {
            *self as u32
        }
    }

    fn ceil_nearest_power_2(&self) -> (r: u64) {
        (*self as i64).ceil_nearest_power_2()
    }
}

impl NumUtils for i64 {
    open spec fn value(&self) -> int {
        *self as int
    }

    fn to_u32(&self) -> (r: u32) {
        if *self < 0 {
            0
        } else if *self > 0xffff_ffff {
            u32::MAX
        } else {
            *self as u32
        }
    }

    fn ceil_nearest_power_2(&self) -> (r: u64) {
        if *self <= 0 {
            0
        } else {
            proof {
                lemma_ceil_pow2_bounds(*self as int);
            }
            ceil_power_of_two(*self as u128) as u64
        }
    }
}

/// The smallest power of two that is at least `n`, for `n` up to `2^126`.
pub fn ceil_power_of_two(n: u128) -> (r: u128)
    requires
        n <= 0x4000_0000_0000_0000_0000_0000_0000_0000,
    ensures
        r as int == ceil_pow2(n as int),
    decreases n,
{
    if n <= 1 {
        n
    } else {
        let half: u128 = (n - 1) / 2 + 1;
        assert(half as int == (n as int + 1) / 2);
        proof {
            lemma_ceil_pow2_bounds(half as int);
        }
        2 * ceil_power_of_two(half)
    }
}

/// The smallest integer that is at least `num / den`.
pub open spec fn ceil_div(num: int, den: int) -> int {
    (num + den - 1) / den
}

/// `num / den` rounded down, for a positive `den`.
pub fn floor_div(num: i128, den: i128) -> (q: i128)
    requires
        den > 0,
        num > i128::MIN,
    ensures
        q as int == (num as int) / (den as int),
        num >= 0 ==> 0 <= q <= num,
        num < 0 ==> num <= q < 0,
{
    if num >= 0 {
        proof {
            vstd::arithmetic::div_mod::lemma_div_is_ordered_by_denominator(
                num as int,
                1,
                den as int,
            );
        }
        num / den
    } else {
        let up: i128 = (-num) / den;
        let rest: i128 = (-num) % den;
        proof {
            let n = num as int;
            let d = den as int;
            vstd::arithmetic::div_mod::lemma_fundamental_div_mod(-n, d);
            assert(-n == d * (up as int) + (rest as int));
            vstd::arithmetic::div_mod::lemma_mod_bound(-n, d);
            assert(0 <= up <= -n && (rest == 0 ==> up >= 1) && (rest != 0 ==> up + 1 <= -n))
                by (nonlinear_arith)
                requires
                    -n == d * (up as int) + (rest as int),
                    -n > 0,
                    d >= 1,
                    0 <= rest < d,
                    up >= 0,
            ;
            if rest == 0 {
                let q = -(up as int);
                assert(n == q * d + 0) by (nonlinear_arith)
                    requires
                        -n == d * (up as int) + (rest as int),
                        rest == 0,
                        q == -(up as int),
                ;
                vstd::arithmetic::div_mod::lemma_fundamental_div_mod_converse(n, d, q, 0);
            } else {
                let q = -(up as int) - 1;
                let r = d - (rest as int);
                assert(n == q * d + r) by (nonlinear_arith)
                    requires
                        -n == d * (up as int) + (rest as int),
                        q == -(up as int) - 1,
                        r == d - (rest as int),
                ;
                vstd::arithmetic::div_mod::lemma_fundamental_div_mod_converse(n, d, q, r);
            }
        }
        if rest == 0 {
            -up
        } else {
            -up - 1
        }
    }
}

/// `v` as a `u32`, saturating at both ends of the range.
pub fn clamp_to_u32(v: i128) -> (r: u32)
    ensures
        r as int == clamp_u32(v as int),
{
    if v < 0 {
        0
    } else if v > 0xffff_ffff {
        u32::MAX
    } else {
        v as u32
    }
}

/// The point that lies the fraction `t / UNIT` of the way from `from` to
/// `to`, rounded towards `from`.
pub open spec fn lerp_value(from: int, to: int, t: int) -> int {
    if to >= from {
        from + ((to - from) * t) / (UNIT as int)
    } else {
        from - ((from - to) * t) / (UNIT as int)
    }
}

/// An interpolated value never leaves the interval between its endpoints,
/// starts at `from` and ends at `to`.
pub proof fn lemma_lerp_bounds(from: int, to: int, t: int)
    requires
        0 <= t <= UNIT,
    ensures
        from <= to ==> from <= lerp_value(from, to, t) <= to,
        to <= from ==> to <= lerp_value(from, to, t) <= from,
        lerp_value(from, to, 0) == from,
        lerp_value(from, to, UNIT as int) == to,
{
    let span = if to >= from { to - from } else { from - to };
    assert(0 <= (span * t) / (UNIT as int) <= span) by (nonlinear_arith)
        requires
            0 <= t <= UNIT,
            span >= 0,
            UNIT == 65536,
    ;
    assert((span * 0) / (UNIT as int) == 0);
    assert((span * (UNIT as int)) / (UNIT as int) == span) by (nonlinear_arith)
        requires
            UNIT == 65536,
    ;
}

/// Interpolation moves towards `to` as the fraction grows.
pub proof fn lemma_lerp_monotonic(from: int, to: int, t1: int, t2: int)
    requires
        0 <= t1 <= t2 <= UNIT,
    ensures
        from <= to ==> lerp_value(from, to, t1) <= lerp_value(from, to, t2),
        to <= from ==> lerp_value(from, to, t1) >= lerp_value(from, to, t2),
{
    if to >= from {
        let span = to - from;
        assert(span * t1 <= span * t2) by (nonlinear_arith)
            requires
                0 <= t1 <= t2,
                span >= 0,
        ;
        vstd::arithmetic::div_mod::lemma_div_is_ordered(span * t1, span * t2, UNIT as int);
        assert(lerp_value(from, to, t1) == from + (span * t1) / (UNIT as int));
        assert(lerp_value(from, to, t2) == from + (span * t2) / (UNIT as int));
        if span == 0 {
            assert(span * t1 == 0 && span * t2 == 0) by (nonlinear_arith)
                requires
                    span == 0,
            ;
        }
    } else {
        let span = from - to;
        assert(span * t1 <= span * t2) by (nonlinear_arith)
            requires
                0 <= t1 <= t2,
                span >= 0,
        ;
        vstd::arithmetic::div_mod::lemma_div_is_ordered(span * t1, span * t2, UNIT as int);
        assert(lerp_value(from, to, t1) == from - (span * t1) / (UNIT as int));
        assert(lerp_value(from, to, t2) == from - (span * t2) / (UNIT as int));
    }
}

/// Interpolates between two fixed-point or pixel values.
pub fn lerp(from: u32, to: u32, t: u32) -> (r: u32)
    requires
        t <= UNIT,
    ensures
        r as int == lerp_value(from as int, to as int, t as int),
{
    proof {
        lemma_lerp_bounds(from as int, to as int, t as int);
    }
    if to >= from {
        let span: u64 = (to - from) as u64;
        assert(span * (t as u64) <= 0xffff_ffff * 65536) by (nonlinear_arith)
            requires
                span <= 0xffff_ffff,
                t <= 65536,
        ;
        let step: u64 = span * (t as u64) / (UNIT as u64);
        from + step as u32
    } else {
        let span: u64 = (from - to) as u64;
        assert(span * (t as u64) <= 0xffff_ffff * 65536) by (nonlinear_arith)
            requires
                span <= 0xffff_ffff,
                t <= 65536,
        ;
        let step: u64 = span * (t as u64) / (UNIT as u64);
        from - step as u32
    }
}

/// A buffer whose storage is allocated once, at its capacity, and whose
/// logical length may change from frame to frame without reallocation.
pub struct PreAllocatedCollection<T: Copy> {
    items: Vec<T>,
    size: usize,
}

impl<T: Copy> PreAllocatedCollection<T> {
    /// The live items, in order.
    pub closed spec fn view(&self) -> Seq<T> {
        self.items@.take(self.size as int)
    }

    /// The number of items the buffer can hold.
    pub closed spec fn capacity(&self) -> nat {
        self.items@.len()
    }

    /// The logical length never exceeds the capacity.
    pub closed spec fn wf(&self) -> bool {
        self.size <= self.items@.len()
    }

    /// What the storage holds past the live items.
    pub closed spec fn spare(&self) -> Seq<T> {
        self.items@.skip(self.size as int)
    }

    /// The live items and the spare slots together fill the capacity, which
    /// is a length that a `Vec` can have.
    pub proof fn lemma_len_within_capacity(&self)
        requires
            self.wf(),
        ensures
            self@.len() <= self.capacity(),
            self@.len() + self.spare().len() == self.capacity(),
            self.capacity() <= usize::MAX,
    {
        broadcast use vstd::std_specs::vec::axiom_spec_len;

        assert(self.items.len() <= usize::MAX);
    }

    /// A buffer of the given capacity whose first `size` items are live; every
    /// slot holds `fill`.
    pub fn new(fill: T, size: usize, capacity: usize) -> (c: Self)
        requires
            size <= capacity,
        ensures
            c.wf(),
            c.capacity() == capacity,
            c@ == Seq::new(size as nat, |i: int| fill),
            c.spare() == Seq::new((capacity - size) as nat, |i: int| fill),
    {
        let mut items: Vec<T> = Vec::with_capacity(capacity);
        let mut i: usize = 0;
        while i < capacity
            invariant
                i <= capacity,
                items@.len() == i,
                forall|j: int| 0 <= j < i ==> items@[j] == fill,
            decreases capacity - i,
        {
            items.push(fill);
            i += 1;
        }
        let c = PreAllocatedCollection { items, size };
        assert(c@ =~= Seq::new(size as nat, |i: int| fill));
        assert(c.spare() =~= Seq::new((capacity - size) as nat, |i: int| fill));
        c
    }

    /// The number of live items.
    pub fn len(&self) -> (n: usize)
        requires
            self.wf(),
        ensures
            n == self@.len(),
    {
        self.size
    }

    /// Changes the logical length. Items that stay live keep their values;
    /// items that become live show what the storage held.
    pub fn set_size(&mut self, size: usize)
        requires
            old(self).wf(),
            size <= old(self).capacity(),
        ensures
            final(self).wf(),
            final(self).capacity() == old(self).capacity(),
            final(self)@.len() == size,
            final(self)@ + final(self).spare() == old(self)@ + old(self).spare(),
    {
        self.size = size;
        proof {
            assert(final(self)@ + final(self).spare() =~= old(self).items@);
            assert(old(self)@ + old(self).spare() =~= old(self).items@);
        }
    }

    /// The live item at `index`.
    pub fn get(&self, index: usize) -> (item: T)
        requires
            self.wf(),
            index < self@.len(),
        ensures
            item == self@[index as int],
    {
        self.items[index]
    }

    /// Overwrites the live item at `index`.
    pub fn set(&mut self, index: usize, item: T)
        requires
            old(self).wf(),
            index < old(self)@.len(),
        ensures
            final(self).wf(),
            final(self).capacity() == old(self).capacity(),
            final(self)@ == old(self)@.update(index as int, item),
            final(self).spare() == old(self).spare(),
    {
        self.items[index] = item;
        proof {
            assert(final(self)@ =~= old(self)@.update(index as int, item));
            assert(final(self).spare() =~= old(self).spare());
        }
    }

    /// A copy of the live items.
    pub fn to_vec(&self) -> (items: Vec<T>)
        requires
            self.wf(),
        ensures
            items@ == self@,
    {
        let mut items: Vec<T> = Vec::with_capacity(self.size);
        let mut i: usize = 0;
        while i < self.size
            invariant
                self.wf(),
                i <= self.size,
                items@.len() == i,
                forall|j: int| 0 <= j < i ==> #[trigger] items@[j] == self@[j],
            decreases self.size - i,
        {
            items.push(self.items[i]);
            i += 1;
        }
        assert(items@ =~= self@);
        items
    }
}

} // verus!
