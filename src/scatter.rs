//! XY scatter charts: each series a polyline through its points, flipped,
//! scaled and centred into the plot area.

use vstd::prelude::*;

use crate::bar::{value_ok, VALUE_MAX};
use crate::chart::{black, dataset_colour, series_colours, ChartInfo, Colour, Dataset, Error, FontInfo, XY};
use crate::charts::ChartType;
use crate::draw::{lemma_views_push, measure, size_ok, views, Alignment, Measure, Primitive, PrimitiveView};
use crate::geom::{point_rect, Point, Rect, Size, COORD_MAX};
use crate::grid::{
    grid_views, grids_spec, mk_grids, push_grid_lines, push_tick_labels, tick_label_views,
    measure_labels, tick_offsets, LABEL_GAP,
};
use crate::legend::{max_width, sizes_ok, widest};
use crate::round::{div_floor, floor_div};
use crate::steps::{decide_steps, step_adjust, step_adjust_spec, ticks, StepLabel};

verus! {

/// A data point.
pub type XYPoint<T> = XY<T>;

/// Whether some series has a point.
pub open spec fn has_points(ds: Seq<Dataset<XY<i64>>>) -> bool {
    exists|i: int| 0 <= i < ds.len() && #[trigger] ds[i].values@.len() > 0
}

/// Whether both coordinates are values that layout accepts.
pub open spec fn pt_ok(p: XY<i64>) -> bool {
    value_ok(p.x as int) && value_ok(p.y as int)
}

/// Whether every coordinate is a value that layout accepts.
pub open spec fn coords_ok(ds: Seq<Dataset<XY<i64>>>) -> bool {
    forall|i: int, j: int|
        0 <= i < ds.len() && 0 <= j < ds[i].values@.len() ==> pt_ok(#[trigger] ds[i].values@[j])
}

/// Greatest coordinate along one axis in a series (0 for none).
pub open spec fn seq_max_axis(s: Seq<XY<i64>>, horizontal: bool) -> int
    decreases s.len(),
{
    if s.len() == 0 {
        0
    } else {
        let m = seq_max_axis(s.drop_last(), horizontal);
        let v = if horizontal { s.last().x } else { s.last().y };
        if v > m { v as int } else { m }
    }
}

/// Greatest coordinate along one axis over all series (0 for none).
pub open spec fn max_axis(ds: Seq<Dataset<XY<i64>>>, horizontal: bool) -> int
    decreases ds.len(),
{
    if ds.len() == 0 {
        0
    } else {
        let m = max_axis(ds.drop_last(), horizontal);
        let l = seq_max_axis(ds.last().values@, horizontal);
        if l > m { l } else { m }
    }
}

/// `v` scaled by `len / m`, rounded down; 0 when `m` is 0.
pub open spec fn scale(v: int, len: int, m: int) -> int {
    if m == 0 { 0 } else { floor_div(v * len, m) }
}

/// A data point flipped (data y grows up, device y down), then scaled so
/// that the greatest coordinates meet the area's width and height.
pub open spec fn flip_scale(p: XY<i64>, w: int, h: int, mx: int, my: int) -> Point {
    Point { x: scale(p.x as int, w, mx) as i64, y: scale(-p.y, h, my) as i64 }
}

/// The smallest rectangle holding all of `ps` (`ps` not empty).
pub open spec fn bbox(ps: Seq<Point>) -> Rect
    decreases ps.len(),
{
    if ps.len() <= 1 {
        point_rect(ps[0])
    } else {
        bbox(ps.drop_last()).union_spec(point_rect(ps.last()))
    }
}

/// Series `i` flipped and scaled, before centring.
pub open spec fn scaled_path(ds: Seq<Dataset<XY<i64>>>, area: Rect, i: int) -> Seq<Point> {
    let mx = max_axis(ds, true);
    let my = max_axis(ds, false);
    ds[i].values@.map_values(
        |p: XY<i64>| flip_scale(p, area.width_spec(), area.height_spec(), mx, my),
    )
}

/// Moves `p` by `d`.
pub open spec fn shift(p: Point, d: Point) -> Point {
    Point { x: (p.x + d.x) as i64, y: (p.y + d.y) as i64 }
}

/// Series `i` in device space: flipped, scaled, then moved so that the
/// centre of its bounding box meets the centre of `area`.
pub open spec fn path_spec(ds: Seq<Dataset<XY<i64>>>, area: Rect, i: int) -> Seq<Point> {
    let q = scaled_path(ds, area, i);
    if q.len() == 0 {
        q
    } else {
        let c = area.center_spec();
        let b = bbox(q).center_spec();
        let d = Point { x: (c.x - b.x) as i64, y: (c.y - b.y) as i64 };
        q.map_values(|p: Point| shift(p, d))
    }
}

proof fn lemma_bbox_holds(ps: Seq<Point>, j: int)
    requires
        0 <= j < ps.len(),
    ensures
        bbox(ps).holds(ps[j]),
        bbox(ps).x0 <= bbox(ps).x1,
        bbox(ps).y0 <= bbox(ps).y1,
    decreases ps.len(),
{
    if ps.len() > 1 {
        if j < ps.len() - 1 {
            lemma_bbox_holds(ps.drop_last(), j);
        } else {
            lemma_bbox_holds(ps.drop_last(), 0);
        }
    }
}

proof fn lemma_bbox_within(ps: Seq<Point>, r: Rect)
    requires
        ps.len() > 0,
        forall|j: int| 0 <= j < ps.len() ==> r.holds(#[trigger] ps[j]),
    ensures
        r.encloses(bbox(ps)),
    decreases ps.len(),
{
    if ps.len() > 1 {
        lemma_bbox_within(ps.drop_last(), r);
        assert(r.holds(ps[ps.len() - 1]));
    } else {
        assert(r.holds(ps[0]));
    }
}

proof fn lemma_bbox_step(ps: Seq<Point>, k: int)
    requires
        1 <= k < ps.len(),
    ensures
        bbox(ps.take(k + 1)) == bbox(ps.take(k)).union_spec(point_rect(ps[k])),
{
    assert(ps.take(k + 1).drop_last() =~= ps.take(k));
}

/// An interval `[b0, b1]` no longer than `[a0, a1]`, moved so that their
/// centres (rounded down) meet, lies within `[a0, a1]`.
proof fn lemma_center_fit(a0: int, a1: int, b0: int, b1: int)
    requires
        a0 <= a1,
        b0 <= b1,
        b1 - b0 <= a1 - a0,
    ensures
        a0 <= b0 + (floor_div(a0 + a1, 2) - floor_div(b0 + b1, 2)),
        b1 + (floor_div(a0 + a1, 2) - floor_div(b0 + b1, 2)) <= a1,
{
}

proof fn lemma_seq_max_axis_ge(s: Seq<XY<i64>>, j: int, horizontal: bool)
    requires
        0 <= j < s.len(),
    ensures
        (if horizontal { s[j].x } else { s[j].y }) <= seq_max_axis(s, horizontal),
    decreases s.len(),
{
    if j < s.len() - 1 {
        lemma_seq_max_axis_ge(s.drop_last(), j, horizontal);
    }
}

proof fn lemma_max_axis_ge(ds: Seq<Dataset<XY<i64>>>, i: int, j: int, horizontal: bool)
    requires
        0 <= i < ds.len(),
        0 <= j < ds[i].values@.len(),
    ensures
        (if horizontal { ds[i].values@[j].x } else { ds[i].values@[j].y }) <= max_axis(
            ds,
            horizontal,
        ),
    decreases ds.len(),
{
    if i < ds.len() - 1 {
        lemma_max_axis_ge(ds.drop_last(), i, j, horizontal);
    } else {
        lemma_seq_max_axis_ge(ds[i].values@, j, horizontal);
    }
}

proof fn lemma_scale_range(v: int, len: int, m: int)
    requires
        0 <= v <= m,
        0 <= len,
    ensures
        0 <= scale(v, len, m) <= len,
        -len <= scale(-v, len, m) <= 0,
{
    if m != 0 {
        assert(0 <= (v * len) / m <= len) by (nonlinear_arith)
            requires 0 <= v <= m, 0 <= len, m > 0;
        assert(-len <= ((-v) * len) / m <= 0) by (nonlinear_arith)
            requires 0 <= v <= m, 0 <= len, m > 0;
    }
}

/// The inputs a scatter layout accepts: some point, every coordinate in
/// range.
pub open spec fn scatter_ok(ds: Seq<Dataset<XY<i64>>>) -> bool {
    has_points(ds) && coords_ok(ds)
}

/// Every scaled point lies in the rectangle from `(0, -height)` to
/// `(width, 0)`.
proof fn lemma_scaled_in_frame(ds: Seq<Dataset<XY<i64>>>, area: Rect, i: int, j: int)
    requires
        area.wf(),
        coords_ok(ds),
        0 <= i < ds.len(),
        0 <= j < ds[i].values@.len(),
    ensures
        (Rect { x0: 0, y0: -area.height_spec() as i64, x1: area.width_spec() as i64, y1: 0 }).holds(
            scaled_path(ds, area, i)[j],
        ),
{
    let p = ds[i].values@[j];
    lemma_max_axis_ge(ds, i, j, true);
    lemma_max_axis_ge(ds, i, j, false);
    assert(pt_ok(ds[i].values@[j]));
    lemma_scale_range(p.x as int, area.width_spec(), max_axis(ds, true));
    lemma_scale_range(p.y as int, area.height_spec(), max_axis(ds, false));
}

/// For series with at least one point and coordinates in range, every point
/// of every laid-out path lies within the plot area.
pub proof fn lemma_paths_inside(ds: Seq<Dataset<XY<i64>>>, area: Rect)
    requires
        area.wf(),
        scatter_ok(ds),
    ensures
        forall|i: int, j: int|
            0 <= i < ds.len() && 0 <= j < path_spec(ds, area, i).len() ==> area.holds(
                #[trigger] path_spec(ds, area, i)[j],
            ),
{
    assert forall|i: int, j: int|
        0 <= i < ds.len() && 0 <= j < path_spec(ds, area, i).len() implies area.holds(
            #[trigger] path_spec(ds, area, i)[j],
        ) by {
        let q = scaled_path(ds, area, i);
        let frame = Rect { x0: 0, y0: -area.height_spec() as i64, x1: area.width_spec() as i64, y1: 0 };
        assert forall|k: int| 0 <= k < q.len() implies frame.holds(#[trigger] q[k]) by {
            lemma_scaled_in_frame(ds, area, i, k);
        }
        lemma_bbox_within(q, frame);
        lemma_bbox_holds(q, j);
        let b = bbox(q);
        lemma_center_fit(area.x0 as int, area.x1 as int, b.x0 as int, b.x1 as int);
        lemma_center_fit(area.y0 as int, area.y1 as int, b.y0 as int, b.y1 as int);
    }
}

proof fn lemma_seq_max_axis_step(s: Seq<XY<i64>>, j: int, horizontal: bool)
    requires
        0 <= j < s.len(),
    ensures
        seq_max_axis(s.take(j + 1), horizontal) == ({
            let v = if horizontal { s[j].x } else { s[j].y };
            let m = seq_max_axis(s.take(j), horizontal);
            if v > m { v as int } else { m }
        }),
{
    assert(s.take(j + 1).drop_last() =~= s.take(j));
}

proof fn lemma_max_axis_step(ds: Seq<Dataset<XY<i64>>>, i: int, horizontal: bool)
    requires
        0 <= i < ds.len(),
    ensures
        max_axis(ds.take(i + 1), horizontal) == ({
            let l = seq_max_axis(ds[i].values@, horizontal);
            let m = max_axis(ds.take(i), horizontal);
            if l > m { l } else { m }
        }),
{
    assert(ds.take(i + 1).drop_last() =~= ds.take(i));
}

/// `v * len / m` rounded down, `-v * len / m` when `flip`; 0 when `m` is 0.
fn scale_coord(v: i64, len: i64, m: i64, flip: bool) -> (r: i64)
    requires
        0 <= v <= m <= VALUE_MAX,
        0 <= len <= 2 * COORD_MAX,
    ensures
        r == scale(if flip { -v } else { v as int }, len as int, m as int),
{
    if m == 0 {
        0
    } else {
        proof {
            lemma_scale_range(v as int, len as int, m as int);
            assert(0 <= v * len <= VALUE_MAX * (2 * COORD_MAX)) by (nonlinear_arith)
                requires 0 <= v <= VALUE_MAX, 0 <= len <= 2 * COORD_MAX;
        }
        let p = v as i128 * len as i128;
        if flip {
            proof { assert((-v) * len == -(v * len)) by (nonlinear_arith); }
            div_floor(-p, m as i128) as i64
        } else {
            div_floor(p, m as i128) as i64
        }
    }
}

/// Bounding box of a non-empty path.
fn path_bbox(ps: &Vec<Point>) -> (r: Rect)
    requires
        ps@.len() > 0,
    ensures
        r == bbox(ps@),
{
    let mut r = Rect { x0: ps[0].x, y0: ps[0].y, x1: ps[0].x, y1: ps[0].y };
    proof { assert(ps@.take(1).drop_last() =~= ps@.take(0)); }
    let mut k: usize = 1;
    while k < ps.len()
        invariant
            1 <= k <= ps@.len(),
            r == bbox(ps@.take(k as int)),
        decreases ps@.len() - k,
    {
        proof { lemma_bbox_step(ps@, k as int); }
        let p = ps[k];
        r = r.union(&Rect { x0: p.x, y0: p.y, x1: p.x, y1: p.y });
        k = k + 1;
    }
    proof { assert(ps@.take(k as int) =~= ps@); }
    r
}

/// Checks that some series has a point and that every coordinate is in
/// range, and finds the greatest coordinate along each axis.
pub fn scan_points(datasets: &Vec<Dataset<XY<i64>>>) -> (r: Result<(i64, i64), Error>)
    ensures
        match r {
            Ok(m) => scatter_ok(datasets@) && m.0 == max_axis(datasets@, true) && m.1 == max_axis(
                datasets@,
                false,
            ) && value_ok(m.0 as int) && value_ok(m.1 as int),
            Err(e) => !scatter_ok(datasets@) && (if !has_points(datasets@) {
                e is EmptyDataset
            } else {
                e is InvalidDatasets
            }),
        },
{
        let ghost ds = datasets@;
        let mut any = false;
        let mut mx: i64 = 0;
        let mut my: i64 = 0;
        let mut i: usize = 0;
        while i < datasets.len()
            invariant
                i <= ds.len(),
                ds == datasets@,
                any == exists|k: int| 0 <= k < i && #[trigger] ds[k].values@.len() > 0,
                forall|k: int, j: int|
                    0 <= k < i && 0 <= j < ds[k].values@.len() ==> pt_ok(#[trigger] ds[k].values@[j]),
                mx == max_axis(ds.take(i as int), true),
                my == max_axis(ds.take(i as int), false),
                value_ok(mx as int),
                value_ok(my as int),
            decreases ds.len() - i,
        {
            let vs = &datasets[i].values;
            let mut best_x: i64 = 0;
            let mut best_y: i64 = 0;
            let mut j: usize = 0;
            while j < vs.len()
                invariant
                    i < ds.len(),
                    ds == datasets@,
                    vs@ == ds[i as int].values@,
                    j <= vs@.len(),
                    forall|j2: int| 0 <= j2 < j ==> pt_ok(#[trigger] vs@[j2]),
                    best_x == seq_max_axis(vs@.take(j as int), true),
                    best_y == seq_max_axis(vs@.take(j as int), false),
                    value_ok(best_x as int),
                    value_ok(best_y as int),
                decreases vs@.len() - j,
            {
                let p = vs[j];
                if p.x < 0 || p.x > VALUE_MAX || p.y < 0 || p.y > VALUE_MAX {
                    proof {
                        assert(ds[i as int].values@.len() > 0);
                        assert(!coords_ok(ds)) by {
                            assert(ds[i as int].values@[j as int] == p);
                        }
                    }
                    return Err(Error::InvalidDatasets(String::from_str("coordinates must lie between 0 and the largest value")));
                }
                proof {
                    assert(pt_ok(vs@[j as int]));
                    lemma_seq_max_axis_step(vs@, j as int, true);
                    lemma_seq_max_axis_step(vs@, j as int, false);
                }
                if p.x > best_x {
                    best_x = p.x;
                }
                if p.y > best_y {
                    best_y = p.y;
                }
                j = j + 1;
            }
            proof {
                assert(vs@.take(j as int) =~= vs@);
                lemma_max_axis_step(ds, i as int, true);
                lemma_max_axis_step(ds, i as int, false);
                assert forall|k: int, j2: int|
                    0 <= k < i + 1 && 0 <= j2 < ds[k].values@.len() implies pt_ok(
                        #[trigger] ds[k].values@[j2],
                    ) by {
                    if k == i {
                        assert(vs@[j2] == ds[k].values@[j2]);
                    }
                }
            }
            if vs.len() > 0 {
                any = true;
            }
            if best_x > mx {
                mx = best_x;
            }
            if best_y > my {
                my = best_y;
            }
            i = i + 1;
        }
        proof {
            assert(ds.take(i as int) =~= ds);
        }
        if !any {
            return Err(Error::EmptyDataset);
        }
        Ok((mx, my))
}

/// The XY scatter chart type.
#[derive(Clone, Debug)]
pub struct XYScatter {
    /// Axis titles.
    pub axis: XY<String>,
    /// Steps of the grid and labels along each axis, in whole units.
    pub steps: XY<u32>,
    /// Grid lines per axis. Default: horizontal lines only.
    pub grid: Option<XY<bool>>,
    /// Gap between the plot and its labels, in fixed-point steps.
    pub margin: Option<XY<u32>>,
}

/// Default gap between plot and labels: four units across, ten down.
pub const DEFAULT_LABEL_MARGIN_X: u32 = 4000;

pub const DEFAULT_LABEL_MARGIN_Y: u32 = 10000;

impl XYScatter {
    pub open spec fn margin_spec(&self) -> XY<u32> {
        match self.margin {
            Some(m) => m,
            None => XY { x: DEFAULT_LABEL_MARGIN_X, y: DEFAULT_LABEL_MARGIN_Y },
        }
    }

    pub fn margin(&self) -> (r: XY<u32>)
        ensures
            r == self.margin_spec(),
    {
        match self.margin {
            Some(m) => m,
            None => XY { x: DEFAULT_LABEL_MARGIN_X, y: DEFAULT_LABEL_MARGIN_Y },
        }
    }

    pub open spec fn grid_spec(&self) -> XY<bool> {
        match self.grid {
            Some(g) => g,
            None => XY { x: false, y: true },
        }
    }

    /// One polyline per series, in device space (see `path_spec`).
    pub fn calc_paths(&self, datasets: &Vec<Dataset<XY<i64>>>, area: &Rect) -> (r: Result<
        Vec<Vec<Point>>,
        Error,
    >)
        requires
            area.wf(),
        ensures
            match r {
                Ok(ps) => scatter_ok(datasets@) && ps@.len() == datasets@.len() && forall|i: int|
                    0 <= i < ps@.len() ==> #[trigger] ps@[i]@ == path_spec(datasets@, *area, i),
                Err(e) => !scatter_ok(datasets@) && (if !has_points(datasets@) {
                    e is EmptyDataset
                } else {
                    e is InvalidDatasets
                }),
            },
    {
        let ghost ds = datasets@;
        let (mx, my) = match scan_points(datasets) {
            Ok(m) => m,
            Err(e) => return Err(e),
        };
        let w = area.width();
        let h = area.height();
        let c = area.center();
        let mut out: Vec<Vec<Point>> = Vec::new();
        let mut i: usize = 0;
        while i < datasets.len()
            invariant
                i <= ds.len(),
                ds == datasets@,
                area.wf(),
                scatter_ok(ds),
                w == area.width_spec(),
                h == area.height_spec(),
                c == area.center_spec(),
                mx == max_axis(ds, true),
                my == max_axis(ds, false),
                value_ok(mx as int),
                value_ok(my as int),
                out@.len() == i,
                forall|k: int| 0 <= k < i ==> #[trigger] out@[k]@ == path_spec(ds, *area, k),
            decreases ds.len() - i,
        {
            let vs = &datasets[i].values;
            let mut q: Vec<Point> = Vec::new();
            let mut j: usize = 0;
            while j < vs.len()
                invariant
                    i < ds.len(),
                    ds == datasets@,
                    vs@ == ds[i as int].values@,
                    area.wf(),
                    scatter_ok(ds),
                    w == area.width_spec(),
                    h == area.height_spec(),
                    mx == max_axis(ds, true),
                    my == max_axis(ds, false),
                    value_ok(mx as int),
                    value_ok(my as int),
                    j <= vs@.len(),
                    q@ =~= scaled_path(ds, *area, i as int).take(j as int),
                decreases vs@.len() - j,
            {
                let p = vs[j];
                proof {
                    assert(p == ds[i as int].values@[j as int]);
                    assert(pt_ok(ds[i as int].values@[j as int]));
                    lemma_max_axis_ge(ds, i as int, j as int, true);
                    lemma_max_axis_ge(ds, i as int, j as int, false);
                }
                let sx = scale_coord(p.x, w, mx, false);
                let sy = scale_coord(p.y, h, my, true);
                q.push(Point { x: sx, y: sy });
                j = j + 1;
            }
            proof {
                assert(scaled_path(ds, *area, i as int).take(j as int) =~= scaled_path(ds, *area, i as int));
            }
            let ghost frame = Rect {
                x0: 0,
                y0: -area.height_spec() as i64,
                x1: area.width_spec() as i64,
                y1: 0,
            };
            proof {
                assert forall|k: int| 0 <= k < q@.len() implies frame.holds(#[trigger] q@[k]) by {
                    lemma_scaled_in_frame(ds, *area, i as int, k);
                }
            }
            if q.len() == 0 {
                out.push(q);
            } else {
                let b = path_bbox(&q);
                let bc = b.center();
                proof {
                    lemma_bbox_within(q@, frame);
                    lemma_bbox_holds(q@, 0);
                    assert(0 <= bc.x <= 2 * COORD_MAX);
                    assert(-2 * COORD_MAX <= bc.y <= 0);
                    assert(-COORD_MAX <= c.x <= COORD_MAX);
                    assert(-COORD_MAX <= c.y <= COORD_MAX);
                }
                let d = Point { x: c.x - bc.x, y: c.y - bc.y };
                let mut path: Vec<Point> = Vec::new();
                let mut k: usize = 0;
                while k < q.len()
                    invariant
                        k <= q@.len(),
                        forall|k2: int| 0 <= k2 < q@.len() ==> frame.holds(#[trigger] q@[k2]),
                        frame.x0 == 0 && frame.y1 == 0,
                        frame.x1 <= 2 * COORD_MAX,
                        frame.y0 >= -2 * COORD_MAX,
                        -4 * COORD_MAX <= d.x <= 4 * COORD_MAX,
                        -4 * COORD_MAX <= d.y <= 4 * COORD_MAX,
                        path@ =~= q@.map_values(|p: Point| shift(p, d)).take(k as int),
                    decreases q@.len() - k,
                {
                    let p = q[k];
                    proof {
                        assert(p == q@[k as int]);
                        assert(frame.holds(q@[k as int]));
                        assert(frame.x0 == 0 && frame.y1 == 0);
                        assert(0 <= p.x <= 2 * COORD_MAX);
                        assert(-2 * COORD_MAX <= p.y <= 0);
                    }
                    path.push(Point { x: p.x + d.x, y: p.y + d.y });
                    k = k + 1;
                }
                proof {
                    assert(q@.map_values(|p: Point| shift(p, d)).take(k as int) =~= q@.map_values(|p: Point| shift(p, d)));
                }
                out.push(path);
            }
            i = i + 1;
        }
        Ok(out)
    }
}

/// The axes: up the left edge of `area`, then along its bottom edge.
pub open spec fn axis_view(area: Rect) -> PrimitiveView {
    PrimitiveView::StrokedPath {
        points: seq![
            Point { x: area.x0, y: area.y0 },
            Point { x: area.x0, y: area.y1 },
            Point { x: area.x1, y: area.y1 },
        ],
        colour: black(),
        thickness: 2000,
    }
}

/// One stroked polyline per series, in the series' colour and thickness.
pub open spec fn path_views(ds: Seq<Dataset<XY<i64>>>, area: Rect) -> Seq<PrimitiveView> {
    Seq::new(
        ds.len(),
        |i: int|
            PrimitiveView::StrokedPath {
                points: path_spec(ds, area, i),
                colour: dataset_colour(ds, i),
                thickness: ds[i].extra.thickness,
            },
    )
}

/// Ticks along one side of `area`: every `step` units from 0 to `len`.
pub open spec fn side_ticks(len: int, step: u32) -> Seq<StepLabel> {
    ticks(len, 0, len, step)
}

/// The axis titles: the x title centred under the x labels, the y title
/// turned upright left of the y labels.
pub open spec fn axis_title_views(
    axis: XY<Seq<char>>,
    area: Rect,
    margin: XY<u32>,
    room: XY<i64>,
    font: FontInfo,
) -> Seq<PrimitiveView> {
    seq![
        PrimitiveView::Text {
            pos: Point {
                x: floor_div(area.x0 + area.x1, 2) as i64,
                y: (area.y1 + margin.y + room.y + LABEL_GAP) as i64,
            },
            content: axis.x,
            align: Alignment::Center,
            rotation: 0,
            font,
        },
        PrimitiveView::Text {
            pos: Point {
                x: (area.x0 - margin.x - room.x - LABEL_GAP) as i64,
                y: floor_div(area.y0 + area.y1, 2) as i64,
            },
            content: axis.y,
            align: Alignment::Center,
            rotation: -90i64,
            font,
        },
    ]
}

impl XYScatter {
    /// The chart in `area`: grid, x labels, y labels, axis titles, axes,
    /// then the series. `room` is the room the labels take: the width of
    /// the widest y label and the height of the tallest x label.
    pub open spec fn views_spec(
        &self,
        ds: Seq<Dataset<XY<i64>>>,
        area: Rect,
        font: FontInfo,
        room: XY<i64>,
    ) -> Seq<PrimitiveView> {
        let tx = side_ticks(area.width_spec(), self.steps.x);
        let ty = side_ticks(area.height_spec(), self.steps.y);
        let m = self.margin_spec();
        grid_views(
            grids_spec(
                self.grid_spec(),
                tx.map_values(|t: StepLabel| t.offset),
                ty.map_values(|t: StepLabel| t.offset),
                area,
            ),
        ) + tick_label_views(
            tx,
            Point { x: area.x0, y: (area.y1 + m.y) as i64 },
            true,
            Alignment::Center,
            font,
        ) + tick_label_views(
            ty,
            Point { x: (area.x0 - m.x) as i64, y: area.y1 },
            false,
            Alignment::End,
            font,
        ) + axis_title_views(XY { x: self.axis.x@, y: self.axis.y@ }, area, m, room, font)
            + seq![axis_view(area)] + path_views(ds, area)
    }

    /// Ticks along both sides of `area`: every step from 0 to its width,
    /// and from 0 to its height.
    pub fn calc_steps(&self, area: &Rect) -> (r: XY<Vec<StepLabel>>)
        requires
            area.wf(),
            self.steps.x > 0,
            self.steps.y > 0,
        ensures
            r.x@ == side_ticks(area.width_spec(), self.steps.x),
            r.y@ == side_ticks(area.height_spec(), self.steps.y),
    {
        let w = area.width();
        let h = area.height();
        XY { x: decide_steps(w, 0, w, self.steps.x), y: decide_steps(h, 0, h, self.steps.y) }
    }

    /// `area` rounded up to whole steps (see `step_adjust`).
    pub fn step_adjust(&self, area: &Rect) -> (r: Rect)
        requires
            area.wf(),
            self.steps.x > 0,
            self.steps.y > 0,
        ensures
            r == step_adjust_spec(*area, self.steps),
    {
        step_adjust(area, &self.steps)
    }

    pub fn grid(&self) -> (r: XY<bool>)
        ensures
            r == self.grid_spec(),
    {
        match self.grid {
            Some(g) => g,
            None => XY { x: false, y: true },
        }
    }

    /// Lays the chart out in `area`, its labels taking `room`.
    pub fn layout(&self, datasets: &Vec<Dataset<XY<i64>>>, area: &Rect, font: &FontInfo, room: XY<i64>) -> (r:
        Result<Vec<Primitive>, Error>)
        requires
            area.wf(),
            self.steps.x > 0,
            self.steps.y > 0,
            0 <= room.x <= COORD_MAX,
            0 <= room.y <= COORD_MAX,
        ensures
            match r {
                Ok(ps) => scatter_ok(datasets@) && views(ps@) == self.views_spec(
                    datasets@,
                    *area,
                    *font,
                    room,
                ),
                Err(e) => !scatter_ok(datasets@) && (if !has_points(datasets@) {
                    e is EmptyDataset
                } else {
                    e is InvalidDatasets
                }),
            },
    {
        let paths = match self.calc_paths(datasets, area) {
            Ok(p) => p,
            Err(e) => return Err(e),
        };
        let ghost ds = datasets@;
        let steps = self.calc_steps(area);
        let tx = steps.x;
        let ty = steps.y;
        proof {
            crate::steps::lemma_steps_cover(area.width_spec(), 0, area.width_spec(), self.steps.x);
            crate::steps::lemma_steps_cover(area.height_spec(), 0, area.height_spec(), self.steps.y);
        }
        let ox = tick_offsets(&tx);
        let oy = tick_offsets(&ty);
        proof {
            assert forall|k: int| 0 <= k < ox@.len() implies 0 <= #[trigger] ox@[k] <= 2
                * COORD_MAX by {
                assert(ox@[k] == tx@[k].offset);
            }
            assert forall|k: int| 0 <= k < oy@.len() implies 0 <= #[trigger] oy@[k] <= 2
                * COORD_MAX by {
                assert(oy@[k] == ty@[k].offset);
            }
        }
        let m = self.margin();
        let mut out: Vec<Primitive> = Vec::new();
        let grid = mk_grids(&self.grid(), &XY { x: ox, y: oy }, area);
        push_grid_lines(&mut out, &grid);
        push_tick_labels(
            &mut out,
            &tx,
            Point { x: area.x0, y: area.y1 + m.y as i64 },
            true,
            Alignment::Center,
            font,
        );
        push_tick_labels(
            &mut out,
            &ty,
            Point { x: area.x0 - m.x as i64, y: area.y1 },
            false,
            Alignment::End,
            font,
        );
        let ghost before_titles = out@;
        let cx = div_floor(area.x0 as i128 + area.x1 as i128, 2) as i64;
        let cy = div_floor(area.y0 as i128 + area.y1 as i128, 2) as i64;
        let t1 = Primitive::Text {
            pos: Point { x: cx, y: area.y1 + m.y as i64 + room.y + LABEL_GAP },
            content: self.axis.x.clone(),
            align: Alignment::Center,
            rotation: 0,
            font: font.copy(),
        };
        out.push(t1);
        let t2 = Primitive::Text {
            pos: Point { x: area.x0 - m.x as i64 - room.x - LABEL_GAP, y: cy },
            content: self.axis.y.clone(),
            align: Alignment::Center,
            rotation: -90i64,
            font: font.copy(),
        };
        out.push(t2);
        let mut axis_pts: Vec<Point> = Vec::new();
        axis_pts.push(Point { x: area.x0, y: area.y0 });
        axis_pts.push(Point { x: area.x0, y: area.y1 });
        axis_pts.push(Point { x: area.x1, y: area.y1 });
        let ax = Primitive::StrokedPath { points: axis_pts, colour: Colour::black(), thickness: 2000 };
        proof {
            assert(axis_pts@ =~= seq![
                Point { x: area.x0, y: area.y0 },
                Point { x: area.x0, y: area.y1 },
                Point { x: area.x1, y: area.y1 },
            ]);
        }
        out.push(ax);
        proof {
            lemma_views_push(before_titles, t1);
            lemma_views_push(before_titles.push(t1), t2);
            lemma_views_push(before_titles.push(t1).push(t2), ax);
            assert(seq![t1@, t2@] =~= axis_title_views(
                XY { x: self.axis.x@, y: self.axis.y@ },
                *area,
                m,
                room,
                *font,
            ));
        }
        let ghost head = views(out@);
        let colours = series_colours(datasets);
        proof {
            assert(head =~= views(before_titles) + axis_title_views(
                XY { x: self.axis.x@, y: self.axis.y@ },
                *area,
                m,
                room,
                *font,
            ) + seq![axis_view(*area)]);
        }
        let mut paths = paths;
        let mut i: usize = paths.len();
        let mut rev: Vec<Vec<Point>> = Vec::new();
        while i > 0
            invariant
                i <= paths@.len(),
                paths@.len() == i,
                rev@.len() + i == ds.len(),
                forall|k: int| 0 <= k < i ==> #[trigger] paths@[k]@ == path_spec(ds, *area, k),
                forall|k: int| 0 <= k < rev@.len() ==> #[trigger] rev@[k]@ == path_spec(ds, *area, ds.len() - 1 - k),
            decreases i,
        {
            let p = paths.pop().unwrap();
            rev.push(p);
            i = i - 1;
        }
        let mut k: usize = 0;
        while k < datasets.len()
            invariant
                ds == datasets@,
                k <= ds.len(),
                rev@.len() + k == ds.len(),
                colours@ == crate::chart::colours_of(ds),
                forall|j: int| 0 <= j < rev@.len() ==> #[trigger] rev@[j]@ == path_spec(ds, *area, ds.len() - 1 - j),
                views(out@) =~= head + path_views(ds, *area).take(k as int),
            decreases ds.len() - k,
        {
            let pts = rev.pop().unwrap();
            let meta = &datasets[k].extra;
            let p = Primitive::StrokedPath { points: pts, colour: colours[k], thickness: meta.thickness };
            let ghost before = out@;
            out.push(p);
            proof {
                lemma_views_push(before, p);
                assert(views(out@) =~= head + path_views(ds, *area).take(k as int + 1));
            }
            k = k + 1;
        }
        proof {
            assert(path_views(ds, *area).take(k as int) =~= path_views(ds, *area));
            assert(views(out@) =~= self.views_spec(ds, *area, *font, room));
        }
        Ok(out)
    }
}

/// Room kept around the plot besides the label margin: twenty units.
pub const PLOT_PAD: i64 = 20000;

/// The plot area inside `area`, given the size `ch` of one character of
/// the label font: room for the y labels on the left and for the x labels
/// below, `margin` plus `PLOT_PAD` on every side.
pub open spec fn inner_spec(area: Rect, margin: XY<u32>, ch: Size) -> Rect {
    let mx = margin.x + PLOT_PAD;
    let my = margin.y + PLOT_PAD;
    Rect {
        x0: (area.x0 + ch.height + 4 * ch.width + mx) as i64,
        y0: (area.y0 + my) as i64,
        x1: (area.x1 - mx) as i64,
        y1: (area.y1 - 3 * ch.height - my) as i64,
    }
}

impl XYScatter {
    /// The plot area for `area`, rounded up to whole steps.
    pub open spec fn plot_area(&self, area: Rect, ch: Size) -> Rect {
        step_adjust_spec(inner_spec(area, self.margin_spec(), ch), self.steps)
    }

    /// Whether the plot area fits in `area` for characters of size `ch`:
    /// the room around it leaves a rectangle, and rounding that up to whole
    /// steps stays within the coordinate range.
    pub open spec fn plot_fits(&self, area: Rect, ch: Size) -> bool {
        let m = self.margin_spec();
        let mx = m.x + PLOT_PAD;
        let my = m.y + PLOT_PAD;
        &&& area.x0 + ch.height + 4 * ch.width + mx <= area.x1 - mx
        &&& area.y0 + my <= area.y1 - 3 * ch.height - my
        &&& self.plot_area(area, ch).x1 <= COORD_MAX
        &&& self.plot_area(area, ch).y0 >= -COORD_MAX
    }

    /// The plot area inside `area` for characters of size `ch`, rounded
    /// up to whole steps; `NotEnoughSpace` when it does not fit.
    pub fn plot_rect(&self, area: Rect, ch: Size) -> (r: Result<Rect, Error>)
        requires
            area.wf(),
            size_ok(ch),
            self.steps.x > 0,
            self.steps.y > 0,
        ensures
            match r {
                Ok(a) => self.plot_fits(area, ch) && a == self.plot_area(area, ch) && a.wf(),
                Err(e) => !self.plot_fits(area, ch) && e is NotEnoughSpace,
            },
    {
        let margin = self.margin();
        let mx = margin.x as i64 + PLOT_PAD;
        let my = margin.y as i64 + PLOT_PAD;
        let x0 = area.x0 + ch.height + 4 * ch.width + mx;
        let y1 = area.y1 - 3 * ch.height - my;
        if x0 > area.x1 - mx || area.y0 + my > y1 {
            return Err(Error::NotEnoughSpace(
                (ch.height + 4 * ch.width + 2 * mx) as u128,
                (area.x1 - area.x0) as i128,
                String::from_str("plot area"),
            ));
        }
        let inner = Rect { x0, y0: area.y0 + my, x1: area.x1 - mx, y1 };
        let adj = self.step_adjust(&inner);
        proof {
            crate::steps::lemma_step_adjust_least(inner, self.steps);
            assert(inner == inner_spec(area, self.margin_spec(), ch));
        }
        if adj.x1 > COORD_MAX || adj.y0 < -COORD_MAX {
            return Err(Error::NotEnoughSpace(0, (area.x1 - area.x0) as i128, String::from_str("steps larger than the plot")));
        }
        Ok(adj)
    }

    /// Whether `ps` is the chart laid out in `area` when one character
    /// measures `ch` and the x and y tick labels measure `sx` and `sy`, one
    /// per tick: the labels' room is the widest of each.
    pub open spec fn measured_layout(
        &self,
        info: ChartInfo<XY<i64>>,
        area: Rect,
        ch: Size,
        sx: Seq<Size>,
        sy: Seq<Size>,
        ps: Seq<Primitive>,
    ) -> bool {
        let plot = self.plot_area(area, ch);
        &&& size_ok(ch)
        &&& self.plot_fits(area, ch)
        &&& sx.len() == side_ticks(plot.width_spec(), self.steps.x).len()
        &&& sy.len() == side_ticks(plot.height_spec(), self.steps.y).len()
        &&& sizes_ok(sx)
        &&& sizes_ok(sy)
        &&& views(ps) == self.views_spec(
            info.datasets@,
            plot,
            info.font_spec(),
            XY { x: max_width(sy) as i64, y: max_width(sx) as i64 },
        )
    }

    /// Lays the chart out in `area`, measuring its labels with `m`. The
    /// series are checked before anything is measured.
    pub fn render_scatter<M: Measure>(&self, info: &ChartInfo<XY<i64>>, area: Rect, m: &mut M) -> (r:
        Result<Vec<Primitive>, Error>)
        requires
            area.wf(),
            self.steps.x > 0,
            self.steps.y > 0,
        ensures
            !scatter_ok(info.datasets@) ==> r is Err && (if !has_points(info.datasets@) {
                r->Err_0 is EmptyDataset
            } else {
                r->Err_0 is InvalidDatasets
            }),
            r is Ok ==> scatter_ok(info.datasets@) && exists|ch: Size, sx: Seq<Size>, sy: Seq<Size>|
                self.measured_layout(*info, area, ch, sx, sy, r->Ok_0@),
    {
        match scan_points(&info.datasets) {
            Ok(_) => {},
            Err(e) => return Err(e),
        }
        let font = info.font();
        let ch = match measure(m, "X", &font) {
            Ok(s) => s,
            Err(e) => return Err(e),
        };
        let adj = match self.plot_rect(area, ch) {
            Ok(a) => a,
            Err(e) => return Err(e),
        };
        let steps = self.calc_steps(&adj);
        let sx = match measure_labels(&steps.x, &font, m) {
            Ok(v) => v,
            Err(e) => return Err(e),
        };
        let sy = match measure_labels(&steps.y, &font, m) {
            Ok(v) => v,
            Err(e) => return Err(e),
        };
        let (wx, _) = widest(&sx);
        let (wy, _) = widest(&sy);
        let room = XY { x: wy, y: wx };
        let r = self.layout(&info.datasets, &adj, &font, room);
        proof {
            if r is Ok {
                assert(self.measured_layout(*info, area, ch, sx@, sy@, r->Ok_0@));
            }
        }
        r
    }
}

impl ChartType for XYScatter {
    type DataPoint = XY<i64>;

    open spec fn config_ok(&self) -> bool {
        self.steps.x > 0 && self.steps.y > 0
    }

    open spec fn lays_out(&self, info: ChartInfo<XY<i64>>, area: Rect, ps: Seq<Primitive>) -> bool {
        scatter_ok(info.datasets@) && exists|ch: Size, sx: Seq<Size>, sy: Seq<Size>|
            self.measured_layout(info, area, ch, sx, sy, ps)
    }

    /// Series without a point, or with a coordinate out of range.
    open spec fn rejects(&self, info: ChartInfo<XY<i64>>, area: Rect) -> bool {
        !scatter_ok(info.datasets@)
    }

    open spec fn rejection(&self, info: ChartInfo<XY<i64>>, area: Rect, e: Error) -> bool {
        if !has_points(info.datasets@) {
            e is EmptyDataset
        } else {
            e is InvalidDatasets
        }
    }

    fn render_datasets<M: Measure>(&self, info: &ChartInfo<XY<i64>>, area: Rect, m: &mut M) -> (r:
        Result<Vec<Primitive>, Error>) {
        self.render_scatter(info, area, m)
    }
}

} // verus!
