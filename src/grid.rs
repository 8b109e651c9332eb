//! Grid lines and tick labels derived from axis steps.

use vstd::prelude::*;

use crate::chart::{Colour, Error, FontInfo, XY};
use crate::draw::{
    grid_line, label, lemma_views_push, measure, views, Alignment, Measure, Primitive, PrimitiveView,
};
use crate::geom::{Line, Point, Rect, Size, COORD_MAX};
use crate::legend::sizes_ok;
use crate::steps::StepLabel;
use crate::text::fixed_str;

verus! {

/// Gap between an axis and its labels: four units.
pub const LABEL_GAP: i64 = 4000;

/// Vertical lines across `b`, one per offset from its left edge.
pub open spec fn vlines(xs: Seq<i64>, b: Rect) -> Seq<Line> {
    Seq::new(
        xs.len(),
        |i: int|
            Line {
                p0: Point { x: (b.x0 + xs[i]) as i64, y: b.y0 },
                p1: Point { x: (b.x0 + xs[i]) as i64, y: b.y1 },
            },
    )
}

/// Horizontal lines across `b`, one per offset up from its bottom edge.
pub open spec fn hlines(ys: Seq<i64>, b: Rect) -> Seq<Line> {
    Seq::new(
        ys.len(),
        |i: int|
            Line {
                p0: Point { x: b.x0, y: (b.y1 - ys[i]) as i64 },
                p1: Point { x: b.x1, y: (b.y1 - ys[i]) as i64 },
            },
    )
}

/// The grid: the vertical lines when `grid.x`, then the horizontal ones
/// when `grid.y`.
pub open spec fn grids_spec(grid: XY<bool>, xs: Seq<i64>, ys: Seq<i64>, b: Rect) -> Seq<Line> {
    (if grid.x { vlines(xs, b) } else { Seq::empty() }) + (if grid.y {
        hlines(ys, b)
    } else {
        Seq::empty()
    })
}

pub open spec fn offsets_ok(s: Seq<i64>) -> bool {
    forall|i: int| 0 <= i < s.len() ==> 0 <= #[trigger] s[i] <= 2 * COORD_MAX
}

/// Grid lines for the step offsets of each axis, on the axes that `grid`
/// turns on.
pub fn mk_grids(grid: &XY<bool>, steps: &XY<Vec<i64>>, bounds: &Rect) -> (r: Vec<Line>)
    requires
        bounds.wf(),
        offsets_ok(steps.x@),
        offsets_ok(steps.y@),
    ensures
        r@ == grids_spec(*grid, steps.x@, steps.y@, *bounds),
{
    let mut out: Vec<Line> = Vec::new();
    if grid.x {
        let mut i: usize = 0;
        while i < steps.x.len()
            invariant
                i <= steps.x@.len(),
                bounds.wf(),
                offsets_ok(steps.x@),
                out@ =~= vlines(steps.x@, *bounds).take(i as int),
            decreases steps.x@.len() - i,
        {
            let x = bounds.x0 + steps.x[i];
            out.push(Line { p0: Point { x, y: bounds.y0 }, p1: Point { x, y: bounds.y1 } });
            i = i + 1;
        }
        proof { assert(vlines(steps.x@, *bounds).take(i as int) =~= vlines(steps.x@, *bounds)); }
    }
    let ghost first = out@;
    if grid.y {
        let mut i: usize = 0;
        while i < steps.y.len()
            invariant
                i <= steps.y@.len(),
                bounds.wf(),
                offsets_ok(steps.y@),
                out@ =~= first + hlines(steps.y@, *bounds).take(i as int),
            decreases steps.y@.len() - i,
        {
            let y = bounds.y1 - steps.y[i];
            out.push(Line { p0: Point { x: bounds.x0, y }, p1: Point { x: bounds.x1, y } });
            i = i + 1;
        }
        proof { assert(hlines(steps.y@, *bounds).take(i as int) =~= hlines(steps.y@, *bounds)); }
    }
    proof { assert(out@ =~= grids_spec(*grid, steps.x@, steps.y@, *bounds)); }
    out
}

/// Gray strokes for `lines`.
pub open spec fn grid_views(lines: Seq<Line>) -> Seq<PrimitiveView> {
    Seq::new(lines.len(), |i: int| grid_line(lines[i]))
}

/// Appends a gray stroke for each of `lines`.
pub fn push_grid_lines(out: &mut Vec<Primitive>, lines: &Vec<Line>)
    ensures
        views(final(out)@) == views(old(out)@) + grid_views(lines@),
{
    let ghost start = views(out@);
    let mut i: usize = 0;
    while i < lines.len()
        invariant
            i <= lines@.len(),
            views(out@) =~= start + grid_views(lines@).take(i as int),
        decreases lines@.len() - i,
    {
        let p = Primitive::Line { line: lines[i], colour: Colour::gray(), width: 1000 };
        let ghost before = out@;
        out.push(p);
        proof {
            lemma_views_push(before, p);
            assert(views(out@) =~= start + grid_views(lines@).take(i as int + 1));
        }
        i = i + 1;
    }
    proof { assert(grid_views(lines@).take(i as int) =~= grid_views(lines@)); }
}

/// Where the label of a tick stands: `origin` moved along the axis by the
/// tick's offset, to the right or upwards.
pub open spec fn tick_pos(origin: Point, offset: i64, horizontal: bool) -> Point {
    if horizontal {
        Point { x: (origin.x + offset) as i64, y: origin.y }
    } else {
        Point { x: origin.x, y: (origin.y - offset) as i64 }
    }
}

/// One label per tick, showing its value in units.
pub open spec fn tick_label_views(
    ticks: Seq<StepLabel>,
    origin: Point,
    horizontal: bool,
    align: Alignment,
    font: FontInfo,
) -> Seq<PrimitiveView> {
    Seq::new(
        ticks.len(),
        |i: int|
            label(
                tick_pos(origin, ticks[i].offset, horizontal),
                fixed_str(ticks[i].value as int),
                align,
                font,
            ),
    )
}

pub open spec fn tick_offsets_ok(ticks: Seq<StepLabel>) -> bool {
    forall|i: int| 0 <= i < ticks.len() ==> 0 <= #[trigger] ticks[i].offset <= 2 * COORD_MAX
}

/// Appends a label for each tick.
pub fn push_tick_labels(
    out: &mut Vec<Primitive>,
    ticks: &Vec<StepLabel>,
    origin: Point,
    horizontal: bool,
    align: Alignment,
    font: &FontInfo,
)
    requires
        -4 * COORD_MAX <= origin.x <= 4 * COORD_MAX,
        -4 * COORD_MAX <= origin.y <= 4 * COORD_MAX,
        tick_offsets_ok(ticks@),
    ensures
        views(final(out)@) == views(old(out)@) + tick_label_views(
            ticks@,
            origin,
            horizontal,
            align,
            *font,
        ),
{
    let ghost start = views(out@);
    let ghost want = tick_label_views(ticks@, origin, horizontal, align, *font);
    let mut i: usize = 0;
    while i < ticks.len()
        invariant
            i <= ticks@.len(),
            -4 * COORD_MAX <= origin.x <= 4 * COORD_MAX,
            -4 * COORD_MAX <= origin.y <= 4 * COORD_MAX,
            tick_offsets_ok(ticks@),
            want == tick_label_views(ticks@, origin, horizontal, align, *font),
            views(out@) =~= start + want.take(i as int),
        decreases ticks@.len() - i,
    {
        let t = ticks[i];
        let pos = if horizontal {
            Point { x: origin.x + t.offset, y: origin.y }
        } else {
            Point { x: origin.x, y: origin.y - t.offset }
        };
        let p = Primitive::Text {
            pos,
            content: t.label(),
            align,
            rotation: 0,
            font: font.copy(),
        };
        let ghost before = out@;
        out.push(p);
        proof {
            lemma_views_push(before, p);
            assert(p@ == want[i as int]);
            assert(views(out@) =~= start + want.take(i as int + 1));
        }
        i = i + 1;
    }
    proof { assert(want.take(i as int) =~= want); }
}

/// The size of each tick label's text, as `m` measures it.
pub fn measure_labels<M: Measure>(ticks: &Vec<StepLabel>, font: &FontInfo, m: &mut M) -> (r: Result<
    Vec<Size>,
    Error,
>)
    ensures
        r is Ok ==> r->Ok_0@.len() == ticks@.len() && sizes_ok(r->Ok_0@),
{
    let mut out: Vec<Size> = Vec::new();
    let mut i: usize = 0;
    while i < ticks.len()
        invariant
            i <= ticks@.len(),
            out@.len() == i,
            sizes_ok(out@),
        decreases ticks@.len() - i,
    {
        let text = ticks[i].label();
        let s = match measure(m, text.as_str(), font) {
            Ok(s) => s,
            Err(e) => return Err(e),
        };
        let ghost before = out@;
        out.push(s);
        proof {
            assert forall|k: int| 0 <= k < out@.len() implies crate::draw::size_ok(#[trigger] out@[k]) by {
                if k < i {
                    assert(out@[k] == before[k]);
                }
            }
        }
        i = i + 1;
    }
    Ok(out)
}

/// The offsets of `ticks`, in order.
pub fn tick_offsets(ticks: &Vec<StepLabel>) -> (r: Vec<i64>)
    ensures
        r@ == ticks@.map_values(|t: StepLabel| t.offset),
{
    let mut out: Vec<i64> = Vec::new();
    let mut i: usize = 0;
    while i < ticks.len()
        invariant
            i <= ticks@.len(),
            out@ =~= ticks@.map_values(|t: StepLabel| t.offset).take(i as int),
        decreases ticks@.len() - i,
    {
        out.push(ticks[i].offset);
        i = i + 1;
    }
    proof { assert(ticks@.map_values(|t: StepLabel| t.offset).take(i as int) =~= ticks@.map_values(|t: StepLabel| t.offset)); }
    out
}

} // verus!
