//! The resampler: which source samples each output sample is blended from.
//!
//! Output sample `i` lies at source position `i * from_rate / to_rate`. The
//! positions are kept as exact fractions, so a plan never depends on rounding.
use vstd::prelude::*;
use crate::error::AudioError;

verus! {

/// How one output sample is obtained from the source: an exact copy of
/// `source[lo]` where `lo == hi`, and otherwise
/// `source[lo] * (1 - t) + source[hi] * t` with `t = num / den`.
#[derive(Debug, Clone, Copy, PartialEq, Eq, Structural)]
pub struct Tap {
    /// Index of the source sample at or before the position.
    pub lo: usize,
    /// Index of the source sample at or after the position.
    pub hi: usize,
    /// Numerator of the distance from `lo` to the position.
    pub num: u32,
    /// Denominator of that distance: the target rate.
    pub den: u32,
}

/// The output length before truncation: `len * to / from`, rounded up.
pub open spec fn nominal_len(len: int, from: int, to: int) -> int {
    (len * to + from - 1) / from
}

/// The source position of output `i`, rounded down.
pub open spec fn source_floor(i: int, from: int, to: int) -> int {
    (i * from) / to
}

/// What the source position of output `i` exceeds its floor by, in units of
/// `1 / to`.
pub open spec fn source_rem(i: int, from: int, to: int) -> int {
    (i * from) % to
}

/// The source position of output `i`, rounded up.
pub open spec fn source_ceil(i: int, from: int, to: int) -> int {
    if source_rem(i, from, to) == 0 {
        source_floor(i, from, to)
    } else {
        source_floor(i, from, to) + 1
    }
}

/// The number of output samples: every position of the nominal length whose
/// ceiling is still a valid source index.
pub open spec fn resampled_len(len: int, from: int, to: int) -> int {
    if len <= 0 {
        0
    } else {
        (len - 1) * to / from + 1
    }
}

/// Whether `tap` is the tap of output `i`.
pub open spec fn is_tap_of(tap: Tap, i: int, from: int, to: int) -> bool {
    &&& tap.lo == source_floor(i, from, to)
    &&& tap.hi == source_ceil(i, from, to)
    &&& tap.num == source_rem(i, from, to)
    &&& tap.den == to
}

/// Whether `plan` is the resampling plan of a source of `len` samples.
pub open spec fn is_plan_of(plan: Seq<Tap>, len: int, from: int, to: int) -> bool {
    &&& plan.len() == resampled_len(len, from, to)
    &&& forall|i: int| 0 <= i < plan.len() ==> is_tap_of(#[trigger] plan[i], i, from, to)
}

/// For a positive divisor, `x * d <= y` says as much as `x <= y / d`.
pub proof fn lemma_floor_div(x: int, y: int, d: int)
    requires
        d > 0,
    ensures
        x * d <= y <==> x <= y / d,
        (y / d) * d <= y < (y / d) * d + d,
{
    vstd::arithmetic::div_mod::lemma_fundamental_div_mod(y, d);
    vstd::arithmetic::div_mod::lemma_mod_bound(y, d);
    let q = y / d;
    assert(q * d == d * q) by (nonlinear_arith);
    if x <= q {
        assert(x * d <= q * d) by (nonlinear_arith)
            requires
                x <= q,
                d > 0,
        ;
    } else {
        assert(x * d >= (q + 1) * d) by (nonlinear_arith)
            requires
                x >= q + 1,
                d > 0,
        ;
        assert((q + 1) * d == q * d + d) by (nonlinear_arith);
    }
}

/// For a positive divisor, `x <= y * d` says as much as `ceil(x / d) <= y`.
pub proof fn lemma_ceil_div(i: int, from: int, to: int, bound: int)
    requires
        to > 0,
    ensures
        i * from <= bound * to <==> source_ceil(i, from, to) <= bound,
        source_floor(i, from, to) <= source_ceil(i, from, to),
        0 <= source_rem(i, from, to) < to,
        i * from == source_floor(i, from, to) * to + source_rem(i, from, to),
{
    let p = i * from;
    vstd::arithmetic::div_mod::lemma_fundamental_div_mod(p, to);
    vstd::arithmetic::div_mod::lemma_mod_bound(p, to);
    let q = p / to;
    assert(q * to == to * q) by (nonlinear_arith);
    lemma_floor_div(bound, p, to);
    if p % to == 0 {
        lemma_floor_div(q, bound * to, to);
        assert(bound * to / to == bound) by {
            vstd::arithmetic::div_mod::lemma_div_multiples_vanish(bound, to);
            assert(bound * to == to * bound) by (nonlinear_arith);
        }
    } else {
        if q + 1 <= bound {
            assert((q + 1) * to <= bound * to) by (nonlinear_arith)
                requires
                    q + 1 <= bound,
                    to > 0,
            ;
            assert((q + 1) * to == q * to + to) by (nonlinear_arith);
        } else {
            assert(bound * to <= q * to) by (nonlinear_arith)
                requires
                    bound <= q,
                    to > 0,
            ;
        }
    }
}

/// The output length is where the nominal length is cut: output `i` is kept
/// exactly when it lies within the nominal length and the ceiling of its
/// source position does not exceed the last valid source index.
pub proof fn lemma_resampled_len_is_truncation(i: int, len: int, from: int, to: int)
    requires
        0 <= i,
        0 <= len,
        from > 0,
        to > 0,
    ensures
        0 <= resampled_len(len, from, to) <= nominal_len(len, from, to),
        i < resampled_len(len, from, to) <==> i < nominal_len(len, from, to) && source_ceil(
            i,
            from,
            to,
        ) <= len - 1,
{
    if len == 0 {
        assert(nominal_len(len, from, to) == 0) by {
            assert(len * to == 0) by (nonlinear_arith)
                requires
                    len == 0,
            ;
            lemma_floor_div(1, from - 1, from);
            lemma_floor_div(0, from - 1, from);
        }
        lemma_ceil_div(i, from, to, -1);
        assert(i * from >= 0) by (nonlinear_arith)
            requires
                i >= 0,
                from > 0,
        ;
        assert(-1 * to < 0) by (nonlinear_arith)
            requires
                to > 0,
        ;
    } else {
        let q = (len - 1) * to;
        let a = q / from;
        assert(q >= 0) by (nonlinear_arith)
            requires
                len >= 1,
                to > 0,
                q == (len - 1) * to,
        ;
        lemma_floor_div(0, q, from);
        lemma_floor_div(a, q, from);
        assert((a + 1) * from <= len * to + from - 1) by (nonlinear_arith)
            requires
                a * from <= q,
                q == (len - 1) * to,
                to > 0,
        ;
        lemma_floor_div(a + 1, len * to + from - 1, from);
        lemma_ceil_div(i, from, to, len - 1);
        lemma_floor_div(i, q, from);
    }
}

/// No tap of a plan reads outside the source: both indices of every kept
/// output are valid, the lower one first.
pub proof fn lemma_taps_in_bounds(i: int, len: int, from: int, to: int)
    requires
        0 <= i < resampled_len(len, from, to),
        from > 0,
        to > 0,
    ensures
        0 <= source_floor(i, from, to) <= source_ceil(i, from, to) <= len - 1,
        0 <= source_rem(i, from, to) < to,
        i * from <= (len - 1) * to,
{
    lemma_resampled_len_is_truncation(i, len, from, to);
    lemma_ceil_div(i, from, to, len - 1);
    assert(i * from >= 0) by (nonlinear_arith)
        requires
            i >= 0,
            from > 0,
    ;
    lemma_floor_div(0, i * from, to);
}

/// Resampling to the same rate changes nothing: the output is as long as the
/// source, and output `i` is an exact copy of source sample `i`.
pub proof fn lemma_identity(i: int, len: int, rate: int)
    requires
        0 <= len,
        rate > 0,
    ensures
        resampled_len(len, rate, rate) == len,
        source_floor(i, rate, rate) == i,
        source_ceil(i, rate, rate) == i,
        source_rem(i, rate, rate) == 0,
{
    vstd::arithmetic::div_mod::lemma_div_multiples_vanish(i, rate);
    vstd::arithmetic::div_mod::lemma_mod_multiples_basic(i, rate);
    assert(i * rate == rate * i) by (nonlinear_arith);
    if len > 0 {
        vstd::arithmetic::div_mod::lemma_div_multiples_vanish(len - 1, rate);
        assert((len - 1) * rate == rate * (len - 1)) by (nonlinear_arith);
    }
}

/// The plan between equal rates is the identity: it is as long as the source
/// and its tap `i` copies source sample `i` exactly, so applying it gives the
/// source back unchanged.
pub proof fn lemma_identity_plan(plan: Seq<Tap>, len: int, rate: int)
    requires
        0 <= len,
        rate > 0,
        is_plan_of(plan, len, rate, rate),
    ensures
        plan.len() == len,
        forall|i: int|
            0 <= i < len ==> (#[trigger] plan[i]).lo == i && plan[i].hi == i && plan[i].num == 0,
{
    lemma_identity(0, len, rate);
    assert forall|i: int| 0 <= i < len implies (#[trigger] plan[i]).lo == i && plan[i].hi == i
        && plan[i].num == 0 by {
        lemma_identity(i, len, rate);
    }
}

/// Raising the rate never shortens a clip, and lowering it never lengthens
/// one.
pub proof fn lemma_length_monotonic(len: int, from: int, to: int)
    requires
        0 <= len,
        from > 0,
        to > 0,
    ensures
        to > from ==> resampled_len(len, from, to) >= len,
        to < from ==> resampled_len(len, from, to) <= len,
{
    if len > 0 {
        let q = (len - 1) * to;
        lemma_floor_div(len - 1, q, from);
        lemma_floor_div(len, q, from);
        if to > from {
            assert((len - 1) * from <= (len - 1) * to) by (nonlinear_arith)
                requires
                    len >= 1,
                    from < to,
            ;
        }
        if to < from {
            assert(len * from > (len - 1) * to) by (nonlinear_arith)
                requires
                    len >= 1,
                    from > to,
                    to > 0,
            ;
        }
    }
}

/// A resampled clip lasts as long as its source, to within one sample: its
/// duration exceeds that of the source without its last sample, by at most
/// one sample of the target rate.
pub proof fn lemma_duration_kept(len: int, from: int, to: int)
    requires
        0 < len,
        from > 0,
        to > 0,
    ensures
        (len - 1) * to < resampled_len(len, from, to) * from <= (len - 1) * to + from,
{
    let q = (len - 1) * to;
    let a = q / from;
    lemma_floor_div(a, q, from);
    assert((a + 1) * from == a * from + from) by (nonlinear_arith);
}

/// Where the rate is not raised, the output length is the nominal length
/// `len * to / from` rounded down, or one more.
pub proof fn lemma_length_near_nominal(len: int, from: int, to: int)
    requires
        0 <= len,
        0 < to <= from,
    ensures
        len * to / from <= resampled_len(len, from, to) <= len * to / from + 1,
{
    if len == 0 {
        assert(len * to == 0) by (nonlinear_arith)
            requires
                len == 0,
        ;
        lemma_floor_div(0, 0, from);
        lemma_floor_div(1, 0, from);
    } else {
        let q = (len - 1) * to;
        let n = len * to;
        assert(n == q + to) by (nonlinear_arith)
            requires
                q == (len - 1) * to,
                n == len * to,
        ;
        assert(q >= 0) by (nonlinear_arith)
            requires
                q == (len - 1) * to,
                len >= 1,
                to > 0,
        ;
        let a = q / from;
        let b = n / from;
        lemma_floor_div(a, q, from);
        lemma_floor_div(b, n, from);
        lemma_floor_div(a, n, from);
        assert((b - 1) * from == b * from - from) by (nonlinear_arith);
        lemma_floor_div(b - 1, q, from);
    }
}

/// Plans the conversion of `len` samples from `from_rate` to `to_rate` by
/// linear interpolation: one tap for each output sample, in order.
///
/// A rate of zero is refused. Equal rates give the plan that copies every
/// sample.
pub fn resample(len: usize, from_rate: u32, to_rate: u32) -> (r: Result<Vec<Tap>, AudioError>)
    ensures
        from_rate == 0 || to_rate == 0 ==> r == Err::<Vec<Tap>, AudioError>(
            AudioError::InvalidRate,
        ),
        from_rate > 0 && to_rate > 0 ==> (r matches Ok(plan) && is_plan_of(
            plan@,
            len as int,
            from_rate as int,
            to_rate as int,
        ) && forall|i: int| 0 <= i < plan@.len() ==> (#[trigger] plan@[i]).lo <= plan@[i].hi < len),
{
    if from_rate == 0 || to_rate == 0 {
        return Err(AudioError::InvalidRate);
    }
    let mut plan: Vec<Tap> = Vec::new();
    if len == 0 {
        return Ok(plan);
    }
    let from: u128 = from_rate as u128;
    let to: u128 = to_rate as u128;
    assert((len - 1) * to <= 0xFFFF_FFFF_FFFF_FFFF * 0xFFFF_FFFF) by (nonlinear_arith)
        requires
            0 <= len - 1 <= 0xFFFF_FFFF_FFFF_FFFF,
            0 < to <= 0xFFFF_FFFF,
    ;
    let total: u128 = (len as u128 - 1) * to / from + 1;
    let mut i: usize = 0;
    while (i as u128) < total
        invariant
            len > 0,
            from == from_rate,
            to == to_rate,
            from > 0,
            to > 0,
            total == resampled_len(len as int, from as int, to as int),
            plan@.len() == i,
            i <= total,
            forall|k: int|
                0 <= k < i ==> is_tap_of(#[trigger] plan@[k], k, from as int, to as int),
            forall|k: int| 0 <= k < i ==> (#[trigger] plan@[k]).lo <= plan@[k].hi < len,
        decreases total - i,
    {
        proof {
            lemma_taps_in_bounds(i as int, len as int, from as int, to as int);
            assert((len - 1) * to <= 0xFFFF_FFFF_FFFF_FFFF * 0xFFFF_FFFF) by (nonlinear_arith)
                requires
                    0 <= len - 1 <= 0xFFFF_FFFF_FFFF_FFFF,
                    0 < to <= 0xFFFF_FFFF,
            ;
        }
        let position: u128 = (i as u128) * from;
        let lo: u128 = position / to;
        let rem: u128 = position % to;
        let hi: u128 = if rem == 0 {
            lo
        } else {
            lo + 1
        };
        plan.push(Tap { lo: lo as usize, hi: hi as usize, num: rem as u32, den: to_rate });
        i = plan.len();
    }
    Ok(plan)
}

} // verus!
