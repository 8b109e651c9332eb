//! Axis steps: tick values with their offsets along an axis, and the
//! rounding of a plot area to whole steps.

use vstd::prelude::*;

use crate::chart::XY;
use crate::geom::{Rect, COORD_MAX, UNIT};
use crate::round::{ceil_mul_spec, div_floor, floor_div, floor_mul_spec, RoundMul};

verus! {

/// One tick of an axis: its value and its offset from the axis origin,
/// both in fixed-point steps.
#[derive(Clone, Copy, Debug, PartialEq, Eq, Structural)]
pub struct StepLabel {
    pub value: i64,
    pub offset: i64,
}

impl StepLabel {
    pub fn new(value: i64, offset: i64) -> (r: StepLabel)
        ensures
            r.value == value,
            r.offset == offset,
    {
        StepLabel { value, offset }
    }

    /// The tick's value as text, in units.
    pub fn label(&self) -> (r: String)
        ensures
            r@ == crate::text::fixed_str(self.value as int),
    {
        crate::text::fixed_text(self.value)
    }
}

/// A step of `step` whole units, in fixed-point steps.
pub open spec fn step_fx(step: u32) -> int {
    step * UNIT
}

/// First tick value: `min_val` rounded down to a multiple of the step.
pub open spec fn first_tick(min_val: int, step: u32) -> int {
    floor_mul_spec(min_val, step_fx(step))
}

/// Last tick value: `max_val` rounded up to a multiple of the step.
pub open spec fn last_tick(max_val: int, step: u32) -> int {
    ceil_mul_spec(max_val, step_fx(step))
}

/// Number of intervals between the first and the last tick.
pub open spec fn tick_intervals(min_val: int, max_val: int, step: u32) -> int {
    (last_tick(max_val, step) - first_tick(min_val, step)) / step_fx(step)
}

/// The `i`-th tick: values advance by one step, offsets are spread evenly
/// over `len` (rounded down), the last tick sitting at `len`.
pub open spec fn tick(len: int, min_val: int, max_val: int, step: u32, i: int) -> StepLabel {
    let n = tick_intervals(min_val, max_val, step);
    StepLabel {
        value: (first_tick(min_val, step) + i * step_fx(step)) as i64,
        offset: if n == 0 { 0 } else { floor_div(len * i, n) as i64 },
    }
}

/// All ticks of an axis of length `len` over `[min_val, max_val]`.
pub open spec fn ticks(len: int, min_val: int, max_val: int, step: u32) -> Seq<StepLabel> {
    Seq::new(
        (tick_intervals(min_val, max_val, step) + 1) as nat,
        |i: int| tick(len, min_val, max_val, step, i),
    )
}

/// The inputs on which the step planner is defined.
pub open spec fn steps_input_ok(len: int, min_val: int, max_val: int, step: u32) -> bool {
    &&& 0 <= len <= 2 * COORD_MAX
    &&& -2 * COORD_MAX <= min_val
    &&& max_val <= 2 * COORD_MAX
    &&& min_val <= max_val
    &&& step > 0
}

proof fn lemma_tick_range(min_val: int, max_val: int, step: u32)
    requires
        -2 * COORD_MAX <= min_val,
        max_val <= 2 * COORD_MAX,
        min_val <= max_val,
        step > 0,
    ensures
        first_tick(min_val, step) <= min_val,
        min_val - step_fx(step) < first_tick(min_val, step),
        max_val <= last_tick(max_val, step),
        last_tick(max_val, step) < max_val + step_fx(step),
        first_tick(min_val, step) <= last_tick(max_val, step),
        (last_tick(max_val, step) - first_tick(min_val, step)) % step_fx(step) == 0,
        tick_intervals(min_val, max_val, step) * step_fx(step) == last_tick(max_val, step)
            - first_tick(min_val, step),
        0 <= tick_intervals(min_val, max_val, step),
{
    let s = step_fx(step);
    assert(s > 0) by (nonlinear_arith) requires s == step * 1000, step > 0;
    crate::round::lemma_round_bounds(min_val, s);
    crate::round::lemma_round_bounds(max_val, s);
    let lo = first_tick(min_val, step);
    let hi = last_tick(max_val, step);
    let a = crate::round::floor_div(min_val, s);
    let b = crate::round::ceil_div(max_val, s);
    assert(hi - lo == s * (b - a)) by (nonlinear_arith)
        requires lo == s * a, hi == s * b;
    assert((hi - lo) % s == 0 && (hi - lo) / s == b - a) by (nonlinear_arith)
        requires hi - lo == s * (b - a), s > 0;
    assert((b - a) * s == hi - lo) by (nonlinear_arith) requires hi - lo == s * (b - a);
    assert(b - a >= 0) by (nonlinear_arith) requires hi - lo == s * (b - a), s > 0, hi >= lo;
}

/// Ticks for an axis of `len` fixed-point steps showing values from
/// `min_val` to `max_val`, `step` whole units apart: from `min_val` rounded
/// down to a multiple of the step up to `max_val` rounded up, both included.
pub fn decide_steps(len: i64, min_val: i64, max_val: i64, step: u32) -> (r: Vec<StepLabel>)
    requires
        steps_input_ok(len as int, min_val as int, max_val as int, step),
    ensures
        r@ == ticks(len as int, min_val as int, max_val as int, step),
{
    proof { lemma_tick_range(min_val as int, max_val as int, step); }
    let s: i64 = step as i64 * UNIT;
    let lo = min_val.floor_mul(s);
    let hi = max_val.ceil_mul(s);
    let n: i64 = div_floor((hi - lo) as i128, s as i128) as i64;
    proof {
        assert(n as int == tick_intervals(min_val as int, max_val as int, step));
        assert(n <= 2 * COORD_MAX) by (nonlinear_arith)
            requires n * s == hi - lo, hi - lo <= 4 * COORD_MAX + 2 * s, s >= 1000, n >= 0;
    }
    let mut out: Vec<StepLabel> = Vec::new();
    let mut i: i64 = 0;
    while i <= n
        invariant
            0 <= i <= n + 1,
            n as int == tick_intervals(min_val as int, max_val as int, step),
            0 <= n <= 2 * COORD_MAX,
            lo as int == first_tick(min_val as int, step),
            hi as int == last_tick(max_val as int, step),
            s as int == step_fx(step),
            n * s == hi - lo,
            -2 * COORD_MAX - s < lo <= hi < 2 * COORD_MAX + s,
            1000 <= s <= 4294967295 * 1000,
            steps_input_ok(len as int, min_val as int, max_val as int, step),
            out@ =~= ticks(len as int, min_val as int, max_val as int, step).take(i as int),
        decreases n + 1 - i,
    {
        proof {
            assert(i * s <= n * s) by (nonlinear_arith) requires 0 <= i <= n, s > 0;
            assert(i * s >= 0) by (nonlinear_arith) requires 0 <= i, s > 0;
        }
        let value = lo + i * s;
        let offset: i64 = if n == 0 {
            0
        } else {
            proof {
                assert(0 <= (len as int) * (i as int) <= 4835703278458516698824704)
                    by (nonlinear_arith)
                    requires 0 <= len <= 2199023255552, 0 <= i <= 2199023255552;
                assert(0 <= ((len as int) * (i as int)) / (n as int) <= len) by (nonlinear_arith)
                    requires 0 <= len, 0 <= i <= n, n > 0;
            }
            div_floor(len as i128 * i as i128, n as i128) as i64
        };
        let lbl = StepLabel { value, offset };
        proof {
            assert(lbl == tick(len as int, min_val as int, max_val as int, step, i as int));
        }
        out.push(lbl);
        i = i + 1;
    }
    out
}

/// Every tick offset lies in `[0, len]`; the values run from the first
/// tick (`min_val` rounded down to the step) to the last (`max_val` rounded
/// up), each exactly one step above the one before.
pub proof fn lemma_steps_cover(len: int, min_val: int, max_val: int, step: u32)
    requires
        steps_input_ok(len, min_val, max_val, step),
    ensures
        ({
            let t = ticks(len, min_val, max_val, step);
            &&& t.len() >= 1
            &&& t[0].value == first_tick(min_val, step)
            &&& t[t.len() - 1].value == last_tick(max_val, step)
            &&& first_tick(min_val, step) <= min_val
            &&& max_val <= last_tick(max_val, step)
            &&& forall|i: int| 0 <= i < t.len() ==> 0 <= #[trigger] t[i].offset <= len
            &&& forall|i: int|
                0 <= i < t.len() - 1 ==> #[trigger] t[i + 1].value == t[i].value + step_fx(step)
        }),
{
    lemma_tick_range(min_val, max_val, step);
    let t = ticks(len, min_val, max_val, step);
    let n = tick_intervals(min_val, max_val, step);
    let lo = first_tick(min_val, step);
    let s = step_fx(step);
    assert(s > 0) by (nonlinear_arith) requires s == step * 1000, step > 0;
    assert(lo + n * s == last_tick(max_val, step));
    assert(s <= 4294967295 * 1000);
    assert forall|i: int| 0 <= i < t.len() implies 0 <= #[trigger] t[i].offset <= len by {
        assert(0 <= i <= n);
        if n != 0 {
            assert(0 <= (len * i) / n <= len) by (nonlinear_arith)
                requires 0 <= len, 0 <= i <= n, n > 0;
        }
    }
    assert forall|i: int| 0 <= i < t.len() - 1 implies #[trigger] t[i + 1].value == t[i].value
        + step_fx(step) by {
        assert(0 <= i * s <= n * s) by (nonlinear_arith) requires 0 <= i < n, s > 0;
        assert((i + 1) * s == i * s + s) by (nonlinear_arith);
        assert((i + 1) * s <= n * s) by (nonlinear_arith) requires 0 <= i < n, s > 0;
    }
}

/// `area` with its width and height rounded up to whole steps: anchored at
/// the left edge for the width and at the bottom edge for the height.
pub open spec fn step_adjust_spec(area: Rect, steps: XY<u32>) -> Rect {
    Rect {
        x0: area.x0,
        y0: (area.y1 - ceil_mul_spec(area.height_spec(), step_fx(steps.y))) as i64,
        x1: (area.x0 + ceil_mul_spec(area.width_spec(), step_fx(steps.x))) as i64,
        y1: area.y1,
    }
}

pub fn step_adjust(area: &Rect, steps: &XY<u32>) -> (r: Rect)
    requires
        area.wf(),
        steps.x > 0,
        steps.y > 0,
    ensures
        r == step_adjust_spec(*area, *steps),
{
    let sx: i64 = steps.x as i64 * UNIT;
    let sy: i64 = steps.y as i64 * UNIT;
    proof {
        crate::round::lemma_round_bounds(area.width_spec(), sx as int);
        crate::round::lemma_round_bounds(area.height_spec(), sy as int);
    }
    let w = area.width().ceil_mul(sx);
    let h = area.height().ceil_mul(sy);
    Rect { x0: area.x0, y0: area.y1 - h, x1: area.x0 + w, y1: area.y1 }
}

/// The adjusted width and height are the least multiples of the steps that
/// are at least the original ones.
pub proof fn lemma_step_adjust_least(area: Rect, steps: XY<u32>)
    requires
        area.wf(),
        steps.x > 0,
        steps.y > 0,
    ensures
        ({
            let r = step_adjust_spec(area, steps);
            let (sx, sy) = (step_fx(steps.x), step_fx(steps.y));
            &&& r.width_spec() % sx == 0
            &&& area.width_spec() <= r.width_spec() < area.width_spec() + sx
            &&& r.height_spec() % sy == 0
            &&& area.height_spec() <= r.height_spec() < area.height_spec() + sy
        }),
{
    let sx = step_fx(steps.x);
    let sy = step_fx(steps.y);
    assert(sx > 0) by (nonlinear_arith) requires sx == steps.x * 1000, steps.x > 0;
    assert(sy > 0) by (nonlinear_arith) requires sy == steps.y * 1000, steps.y > 0;
    crate::round::lemma_round_bounds(area.width_spec(), sx);
    crate::round::lemma_round_bounds(area.height_spec(), sy);
}

} // verus!
