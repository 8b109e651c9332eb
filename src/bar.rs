//! Grouped bar charts: one block per series and category, the groups of a
//! category side by side, `spacing` apart.

use vstd::prelude::*;

use crate::chart::{dataset_colour, series_colours, ChartInfo, Dataset, Error, FontInfo, XY};
use crate::charts::ChartType;
use crate::draw::{label, lemma_views_push, views, Alignment, Measure, Primitive, PrimitiveView};
use crate::geom::{Point, Rect, Size, COORD_MAX, UNIT};
use crate::legend::{max_width, sizes_ok, widest};
use crate::grid::{
    grid_views, grids_spec, mk_grids, push_grid_lines, push_tick_labels, tick_label_views,
    measure_labels, tick_offsets, LABEL_GAP,
};
use crate::round::{ceil_mul_spec, div_floor, floor_div, RoundMul};
use crate::steps::{decide_steps, ticks, StepLabel};

verus! {

/// Largest data value that layout accepts: the greatest whole number of
/// units below `COORD_MAX`.
pub const VALUE_MAX: i64 = 1099511627000;

/// Whether `v` is a data value that layout accepts.
pub open spec fn value_ok(v: int) -> bool {
    0 <= v <= VALUE_MAX
}

/// Greatest value of a series, 0 for an empty one.
pub open spec fn seq_max(s: Seq<i64>) -> int
    decreases s.len(),
{
    if s.len() == 0 {
        0
    } else {
        let m = seq_max(s.drop_last());
        if s.last() > m { s.last() as int } else { m }
    }
}

/// Greatest value over all series, 0 when there is none.
pub open spec fn sets_max(ds: Seq<Dataset<i64>>) -> int
    decreases ds.len(),
{
    if ds.len() == 0 {
        0
    } else {
        let m = sets_max(ds.drop_last());
        let l = seq_max(ds.last().values@);
        if l > m { l } else { m }
    }
}

/// The top of the value axis: the greatest value rounded up to whole units.
pub open spec fn top_value(ds: Seq<Dataset<i64>>) -> int {
    ceil_mul_spec(sets_max(ds), UNIT as int)
}

/// Number of categories: the length of the first series.
pub open spec fn nb_cats(ds: Seq<Dataset<i64>>) -> int {
    if ds.len() == 0 { 0 } else { ds[0].values@.len() as int }
}

pub open spec fn same_len(ds: Seq<Dataset<i64>>) -> bool {
    forall|i: int| 0 <= i < ds.len() ==> #[trigger] ds[i].values@.len() == nb_cats(ds)
}

pub open spec fn values_ok(ds: Seq<Dataset<i64>>) -> bool {
    forall|i: int, j: int|
        0 <= i < ds.len() && 0 <= j < ds[i].values@.len() ==> value_ok(
            #[trigger] ds[i].values@[j] as int,
        )
}

/// Width left for blocks once the gaps between categories are taken.
pub open spec fn free_width(ds: Seq<Dataset<i64>>, area: Rect, spacing: u32) -> int {
    area.width_spec() - (nb_cats(ds) - 1) * spacing
}

/// Blocks to place, each needing at least one unit of width.
pub open spec fn nb_needed(ds: Seq<Dataset<i64>>) -> int {
    ds.len() * nb_cats(ds)
}

/// Whether bars can be laid out: some series, all of one length and not
/// empty, values in range, and one unit of width per block.
pub open spec fn bars_ok(ds: Seq<Dataset<i64>>, area: Rect, spacing: u32) -> bool {
    &&& ds.len() > 0
    &&& same_len(ds)
    &&& nb_cats(ds) > 0
    &&& values_ok(ds)
    &&& free_width(ds, area, spacing) >= nb_needed(ds) * UNIT
}

/// The error for inputs that fail `bars_ok`, checked in this order.
pub open spec fn bars_error(e: Error, ds: Seq<Dataset<i64>>, area: Rect, spacing: u32) -> bool {
    if ds.len() == 0 {
        e is EmptyDataset
    } else if !same_len(ds) {
        e is InvalidDatasets
    } else if nb_cats(ds) == 0 {
        e is EmptyDataset
    } else if !values_ok(ds) {
        e is InvalidDatasets
    } else {
        &&& e is NotEnoughSpace
        &&& e->NotEnoughSpace_0 == nb_needed(ds)
        &&& e->NotEnoughSpace_1 == free_width(ds, area, spacing)
    }
}

/// The geometry shared by all blocks of a bar chart.
#[derive(Clone, Copy, Debug, PartialEq, Eq, Structural)]
pub struct DrawingInfo {
    pub block_w: i64,
    pub nb_cats: i64,
    pub max_val: i64,
    pub spacing: i64,
    pub area: Rect,
    pub nb_blocks: i64,
}

/// The layout of `ds` in `area`: blocks share the free width equally
/// (rounded down), the value axis ends at `top_value`.
pub open spec fn drawing_info_spec(ds: Seq<Dataset<i64>>, area: Rect, spacing: u32) -> DrawingInfo {
    DrawingInfo {
        block_w: floor_div(free_width(ds, area, spacing), nb_needed(ds)) as i64,
        nb_cats: nb_cats(ds) as i64,
        max_val: top_value(ds) as i64,
        spacing: spacing as i64,
        area,
        nb_blocks: ds.len() as i64,
    }
}

proof fn lemma_seq_max_step(s: Seq<i64>, j: int)
    requires
        0 <= j < s.len(),
    ensures
        seq_max(s.take(j + 1)) == if s[j] > seq_max(s.take(j)) {
            s[j] as int
        } else {
            seq_max(s.take(j))
        },
{
    assert(s.take(j + 1).drop_last() =~= s.take(j));
}

proof fn lemma_sets_max_step(ds: Seq<Dataset<i64>>, i: int)
    requires
        0 <= i < ds.len(),
    ensures
        sets_max(ds.take(i + 1)) == if seq_max(ds[i].values@) > sets_max(ds.take(i)) {
            seq_max(ds[i].values@)
        } else {
            sets_max(ds.take(i))
        },
{
    assert(ds.take(i + 1).drop_last() =~= ds.take(i));
}

proof fn lemma_seq_max_bounds(s: Seq<i64>)
    requires
        forall|j: int| 0 <= j < s.len() ==> value_ok(#[trigger] s[j] as int),
    ensures
        value_ok(seq_max(s)),
    decreases s.len(),
{
    if s.len() > 0 {
        lemma_seq_max_bounds(s.drop_last());
    }
}

/// Greatest value over all series (0 when there is none).
pub fn max_val(datasets: &Vec<Dataset<i64>>) -> (r: i64)
    requires
        values_ok(datasets@),
    ensures
        r == sets_max(datasets@),
        value_ok(r as int),
{
    let mut m: i64 = 0;
    let mut i: usize = 0;
    while i < datasets.len()
        invariant
            i <= datasets@.len(),
            values_ok(datasets@),
            m == sets_max(datasets@.take(i as int)),
            value_ok(m as int),
        decreases datasets@.len() - i,
    {
        let vs = &datasets[i].values;
        let mut best: i64 = 0;
        let mut j: usize = 0;
        while j < vs.len()
            invariant
                j <= vs@.len(),
                vs@ == datasets@[i as int].values@,
                i < datasets@.len(),
                values_ok(datasets@),
                best == seq_max(vs@.take(j as int)),
                value_ok(best as int),
            decreases vs@.len() - j,
        {
            proof { lemma_seq_max_step(vs@, j as int); }
            if vs[j] > best {
                best = vs[j];
            }
            j = j + 1;
        }
        proof {
            assert(vs@.take(j as int) =~= vs@);
            lemma_sets_max_step(datasets@, i as int);
        }
        if best > m {
            m = best;
        }
        i = i + 1;
    }
    proof { assert(datasets@.take(i as int) =~= datasets@); }
    m
}

impl DrawingInfo {
    /// Checks that `datasets` can be laid out as bars in `area`, and
    /// derives the geometry of their blocks.
    pub fn new(datasets: &Vec<Dataset<i64>>, area: Rect, spacing: u32) -> (r: Result<
        DrawingInfo,
        Error,
    >)
        requires
            area.wf(),
        ensures
            match r {
                Ok(info) => bars_ok(datasets@, area, spacing) && info == drawing_info_spec(
                    datasets@,
                    area,
                    spacing,
                ) && info.wf() && info.nb_blocks == datasets@.len() && info.nb_cats == nb_cats(
                    datasets@,
                ) && info.max_val == top_value(datasets@),
                Err(e) => !bars_ok(datasets@, area, spacing) && bars_error(
                    e,
                    datasets@,
                    area,
                    spacing,
                ),
            },
    {
        let ghost ds = datasets@;
        let n = datasets.len();
        if n == 0 {
            return Err(Error::EmptyDataset);
        }
        let c = datasets[0].values.len();
        let mut i: usize = 0;
        while i < n
            invariant
                n == ds.len(),
                ds == datasets@,
                c == nb_cats(ds),
                i <= n,
                forall|k: int| 0 <= k < i ==> #[trigger] ds[k].values@.len() == c,
            decreases n - i,
        {
            if datasets[i].values.len() != c {
                return Err(Error::InvalidDatasets(String::from_str("datasets must all be the same size")));
            }
            i = i + 1;
        }
        if c == 0 {
            return Err(Error::EmptyDataset);
        }
        let mut i: usize = 0;
        while i < n
            invariant
                n == ds.len(),
                ds == datasets@,
                same_len(ds),
                c == nb_cats(ds),
                c > 0,
                i <= n,
                forall|k: int, j: int|
                    0 <= k < i && 0 <= j < ds[k].values@.len() ==> value_ok(
                        #[trigger] ds[k].values@[j] as int,
                    ),
            decreases n - i,
        {
            let vs = &datasets[i].values;
            let mut j: usize = 0;
            while j < vs.len()
                invariant
                    vs@ == ds[i as int].values@,
                    i < n,
                    n == ds.len(),
                    ds == datasets@,
                    same_len(ds),
                    c == nb_cats(ds),
                    c > 0,
                    j <= vs@.len(),
                    forall|k: int, j2: int|
                        0 <= k < i && 0 <= j2 < ds[k].values@.len() ==> value_ok(
                            #[trigger] ds[k].values@[j2] as int,
                        ),
                    forall|j2: int| 0 <= j2 < j ==> value_ok(#[trigger] vs@[j2] as int),
                decreases vs@.len() - j,
            {
                if vs[j] < 0 || vs[j] > VALUE_MAX {
                    proof {
                        assert(!value_ok(ds[i as int].values@[j as int] as int));
                    }
                    return Err(Error::InvalidDatasets(String::from_str("values must lie between 0 and the largest value")));
                }
                j = j + 1;
            }
            proof {
                assert forall|k: int, j2: int|
                    0 <= k < i + 1 && 0 <= j2 < ds[k].values@.len() implies value_ok(
                        #[trigger] ds[k].values@[j2] as int,
                    ) by {
                    if k == i {
                        assert(vs@[j2] == ds[k].values@[j2]);
                    }
                }
            }
            i = i + 1;
        }
        proof {
            assert(0 <= (c as int - 1) * spacing <= (c as int) * u32::MAX) by (nonlinear_arith)
                requires c >= 1, 0 <= spacing <= u32::MAX;
            assert((c as int) * u32::MAX <= usize::MAX * u32::MAX) by (nonlinear_arith)
                requires c <= usize::MAX;
            assert(0 <= (n as int) * (c as int) <= usize::MAX * usize::MAX) by (nonlinear_arith)
                requires n <= usize::MAX, c <= usize::MAX;
        }
        let free: i128 = area.width() as i128 - (c as i128 - 1) * spacing as i128;
        let needed: u128 = n as u128 * c as u128;
        proof {
            assert(free == free_width(ds, area, spacing));
            assert(needed == nb_needed(ds));
            assert(needed >= 1) by (nonlinear_arith) requires needed == n * c, n >= 1, c >= 1;
        }
        let short = if free < 0 {
            true
        } else {
            proof {
                assert((free < needed * UNIT) == ((free as int) / (UNIT as int) < needed)) by (nonlinear_arith)
                    requires free >= 0, needed >= 0;
            }
            (free as u128) / (UNIT as u128) < needed
        };
        if short {
            return Err(Error::NotEnoughSpace(needed, free, String::from_str("free width for blocks")));
        }
        let m = max_val(datasets);
        proof {
            crate::round::lemma_round_bounds(m as int, UNIT as int);
            assert(ceil_mul_spec(m as int, UNIT as int) <= VALUE_MAX) by {
                let q = crate::round::ceil_div(m as int, UNIT as int);
                assert(UNIT * q < m + UNIT);
                assert(q <= 1099511627) by (nonlinear_arith)
                    requires 1000 * q < m + 1000, m <= 1099511627000;
            }
        }
        let top = m.ceil_mul(UNIT);
        proof {
            assert(free >= needed * UNIT);
            assert((free as int) / (needed as int) >= UNIT) by (nonlinear_arith)
                requires free >= needed * UNIT, needed >= 1;
            assert((free as int) / (needed as int) <= free) by (nonlinear_arith)
                requires free >= 0, needed >= 1;
            assert((needed as int) * ((free as int) / (needed as int)) <= free) by (nonlinear_arith)
                requires free >= 0, needed >= 1;
            assert(needed <= free) by (nonlinear_arith) requires free >= needed * 1000, needed >= 0;
            assert(c <= needed) by (nonlinear_arith) requires needed == n * c, n >= 1, c >= 0;
            assert(n <= needed) by (nonlinear_arith) requires needed == n * c, c >= 1, n >= 0;
        }
        let block_w = div_floor(free, needed as i128) as i64;
        let info = DrawingInfo {
            block_w,
            nb_cats: c as i64,
            max_val: top,
            spacing: spacing as i64,
            area,
            nb_blocks: n as i64,
        };
        proof {
            let w = block_w as int;
            assert((c as int) * (n as int) * w == (needed as int) * w) by (nonlinear_arith)
                requires needed == n * c;
            assert(info.wf());
        }
        Ok(info)
    }

    /// What every block's placement relies on.
    pub open spec fn wf(&self) -> bool {
        &&& self.area.wf()
        &&& 1 <= self.nb_blocks
        &&& 1 <= self.nb_cats
        &&& 0 <= self.spacing <= u32::MAX
        &&& UNIT <= self.block_w
        &&& self.nb_cats * self.nb_blocks * self.block_w + (self.nb_cats - 1) * self.spacing
            <= self.area.width_spec()
        &&& 0 <= self.max_val <= VALUE_MAX
    }

    /// From one category's first block to the next one's.
    pub open spec fn block_gap_spec(&self) -> int {
        self.block_w * self.nb_blocks + self.spacing
    }

    /// Height of a block of value `v`: the area's height scaled by
    /// `v / max_val`, rounded down; 0 when every value is 0.
    pub open spec fn block_h_spec(&self, v: int) -> int {
        if self.max_val == 0 {
            0
        } else {
            floor_div(self.area.height_spec() * v, self.max_val as int)
        }
    }

    /// The block of series `dataset` in category `num`, in value space: it
    /// stands on the area's `y0` edge and grows with `v` towards `y1`.
    pub open spec fn block_rect_spec(&self, dataset: int, num: int, v: int) -> Rect {
        let x = self.area.x0 + num * self.block_gap_spec() + dataset * self.block_w;
        Rect {
            x0: x as i64,
            y0: self.area.y0,
            x1: (x + self.block_w) as i64,
            y1: (self.area.y0 + self.block_h_spec(v)) as i64,
        }
    }

    /// Horizontal span of the blocks of category `cat`.
    pub open spec fn cat_xbounds_spec(&self, cat: int) -> (int, int) {
        let x = self.area.x0 + cat * self.block_gap_spec();
        (x, x + self.nb_blocks * self.block_w)
    }

    proof fn lemma_block_x(&self, dataset: int, num: int)
        requires
            self.wf(),
            0 <= dataset < self.nb_blocks,
            0 <= num < self.nb_cats,
        ensures
            self.area.x0 <= self.area.x0 + num * self.block_gap_spec() + dataset * self.block_w,
            self.area.x0 + num * self.block_gap_spec() + (dataset + 1) * self.block_w
                <= self.area.x0 + num * self.block_gap_spec() + self.nb_blocks * self.block_w,
            self.area.x0 + num * self.block_gap_spec() + self.nb_blocks * self.block_w
                <= self.area.x1,
            0 <= dataset * self.block_w <= self.nb_blocks * self.block_w,
            self.area.x0 + num * self.block_gap_spec() + dataset * self.block_w + self.block_w
                <= self.area.x1,
            0 <= num * self.block_gap_spec() <= self.area.width_spec(),
            self.nb_blocks * self.block_w <= self.area.width_spec(),
    {
        let c = self.nb_cats as int;
        let n = self.nb_blocks as int;
        let w = self.block_w as int;
        let sp = self.spacing as int;
        let g = self.block_gap_spec();
        assert(0 <= num * g) by (nonlinear_arith) requires num >= 0, g >= 0;
        assert(0 <= dataset * w) by (nonlinear_arith) requires dataset >= 0, w >= 0;
        assert((dataset + 1) * w <= n * w) by (nonlinear_arith) requires dataset + 1 <= n, w >= 0;
        assert(dataset * w <= (dataset + 1) * w) by (nonlinear_arith) requires w >= 0;
        assert((dataset + 1) * w == dataset * w + w) by (nonlinear_arith);
        assert(num * g + n * w <= c * n * w + (c - 1) * sp) by (nonlinear_arith)
            requires 0 <= num < c, g == w * n + sp, w >= 0, n >= 0, sp >= 0;
    }

    proof fn lemma_block_h(&self, v: int)
        requires
            self.wf(),
            0 <= v <= self.max_val,
        ensures
            0 <= self.block_h_spec(v) <= self.area.height_spec(),
    {
        if self.max_val != 0 {
            let h = self.area.height_spec();
            assert(0 <= h * v <= h * self.max_val) by (nonlinear_arith)
                requires 0 <= v <= self.max_val, h >= 0;
            assert(0 <= (h * v) / (self.max_val as int) <= h) by (nonlinear_arith)
                requires 0 <= h * v <= h * self.max_val, self.max_val > 0, h >= 0;
        }
    }

    /// Every block lies within the area, for a value between 0 and the top
    /// of the value axis.
    pub proof fn lemma_block_inside(&self, dataset: int, num: int, v: int)
        requires
            self.wf(),
            0 <= dataset < self.nb_blocks,
            0 <= num < self.nb_cats,
            0 <= v <= self.max_val,
        ensures
            self.area.encloses(self.block_rect_spec(dataset, num, v)),
            self.area.union_spec(self.block_rect_spec(dataset, num, v)) == self.area,
    {
        self.lemma_block_x(dataset, num);
        self.lemma_block_h(v);
    }

    pub fn block_gap(&self) -> (r: i64)
        requires
            self.wf(),
        ensures
            r == self.block_gap_spec(),
    {
        proof {
            let (c, n, w) = (self.nb_cats as int, self.nb_blocks as int, self.block_w as int);
            assert(w * n <= c * n * w) by (nonlinear_arith) requires c >= 1, n >= 1, w >= 1;
        }
        self.block_w * self.nb_blocks + self.spacing
    }

    pub fn block_h(&self, v: i64) -> (r: i64)
        requires
            self.wf(),
            0 <= v <= self.max_val,
        ensures
            r == self.block_h_spec(v as int),
            0 <= r <= self.area.height_spec(),
    {
        if self.max_val == 0 {
            0
        } else {
            let h = self.area.height() as i128;
            proof {
                assert(0 <= h * v <= h * self.max_val) by (nonlinear_arith)
                    requires 0 <= v <= self.max_val, h >= 0;
                assert(h * self.max_val <= (2 * COORD_MAX) * VALUE_MAX) by (nonlinear_arith)
                    requires 0 <= h <= 2 * COORD_MAX, 0 <= self.max_val <= VALUE_MAX;
                assert(0 <= (h * v) / (self.max_val as int) <= h) by (nonlinear_arith)
                    requires 0 <= h * v <= h * self.max_val, self.max_val > 0, h >= 0;
            }
            div_floor(h * v as i128, self.max_val as i128) as i64
        }
    }

    pub fn block_rect(&self, dataset: usize, num: usize, v: i64) -> (r: Rect)
        requires
            self.wf(),
            dataset < self.nb_blocks,
            num < self.nb_cats,
            0 <= v <= self.max_val,
        ensures
            r == self.block_rect_spec(dataset as int, num as int, v as int),
            self.area.encloses(r),
            r.x0 <= r.x1 && r.y0 <= r.y1,
    {
        proof { self.lemma_block_x(dataset as int, num as int); }
        let g = self.block_gap();
        let x = self.area.x0 + num as i64 * g + dataset as i64 * self.block_w;
        let h = self.block_h(v);
        Rect { x0: x, y0: self.area.y0, x1: x + self.block_w, y1: self.area.y0 + h }
    }

    pub fn cat_xbounds(&self, cat: usize) -> (r: (i64, i64))
        requires
            self.wf(),
            cat < self.nb_cats,
        ensures
            r.0 == self.cat_xbounds_spec(cat as int).0,
            r.1 == self.cat_xbounds_spec(cat as int).1,
            self.area.x0 <= r.0 <= r.1 <= self.area.x1,
    {
        proof { self.lemma_block_x(0, cat as int); }
        let x = self.area.x0 + cat as i64 * self.block_gap();
        (x, x + self.nb_blocks * self.block_w)
    }
}

/// For series that can be laid out, the geometry is well formed, and each
/// series' block in each category lies within the area: the area's union
/// with the block is the area itself.
pub proof fn lemma_blocks_inside(ds: Seq<Dataset<i64>>, area: Rect, spacing: u32, d: int, cat: int)
    requires
        area.wf(),
        bars_ok(ds, area, spacing),
        0 <= d < ds.len(),
        0 <= cat < nb_cats(ds),
    ensures
        ({
            let info = drawing_info_spec(ds, area, spacing);
            let v = ds[d].values@[cat] as int;
            &&& info.wf()
            &&& area.encloses(info.block_rect_spec(d, cat, v))
            &&& area.union_spec(info.block_rect_spec(d, cat, v)) == area
        }),
{
    let info = drawing_info_spec(ds, area, spacing);
    let n = ds.len() as int;
    let c = nb_cats(ds);
    let free = free_width(ds, area, spacing);
    let needed = nb_needed(ds);
    assert(needed >= 1) by (nonlinear_arith) requires needed == n * c, n >= 1, c >= 1;
    assert(free / needed >= UNIT) by (nonlinear_arith)
        requires free >= needed * UNIT, needed >= 1;
    assert(needed <= free) by (nonlinear_arith) requires free >= needed * 1000, needed >= 0;
    assert(c <= needed) by (nonlinear_arith) requires needed == n * c, n >= 1, c >= 0;
    assert(n <= needed) by (nonlinear_arith) requires needed == n * c, c >= 1, n >= 0;
    assert(free / needed <= free) by (nonlinear_arith) requires free >= 0, needed >= 1;
    assert(needed * (free / needed) <= free) by (nonlinear_arith) requires free >= 0, needed >= 1;
    let w = free / needed;
    assert(c * n * w == needed * w) by (nonlinear_arith) requires needed == n * c;
    lemma_sets_max_bounds(ds);
    crate::round::lemma_round_bounds(sets_max(ds), UNIT as int);
    assert(top_value(ds) <= VALUE_MAX) by {
        let q = crate::round::ceil_div(sets_max(ds), UNIT as int);
        assert(UNIT * q < sets_max(ds) + UNIT);
        assert(q <= 1099511627) by (nonlinear_arith)
            requires 1000 * q < sets_max(ds) + 1000, sets_max(ds) <= 1099511627000;
    }
    assert(info.wf());
    lemma_value_below_top(ds, d, cat);
    assert(value_ok(ds[d].values@[cat] as int));
    info.lemma_block_inside(d, cat, ds[d].values@[cat] as int);
}

proof fn lemma_sets_max_bounds(ds: Seq<Dataset<i64>>)
    requires
        values_ok(ds),
    ensures
        value_ok(sets_max(ds)),
    decreases ds.len(),
{
    if ds.len() > 0 {
        assert(values_ok(ds.drop_last())) by {
            assert forall|i: int, j: int|
                0 <= i < ds.drop_last().len() && 0 <= j < ds.drop_last()[i].values@.len()
                implies value_ok(#[trigger] ds.drop_last()[i].values@[j] as int) by {
                assert(ds.drop_last()[i] == ds[i]);
            }
        }
        lemma_sets_max_bounds(ds.drop_last());
        let l = ds.last().values@;
        assert forall|j: int| 0 <= j < l.len() implies value_ok(#[trigger] l[j] as int) by {
            assert(l[j] == ds[ds.len() - 1].values@[j]);
        }
        lemma_seq_max_bounds(l);
    }
}

proof fn lemma_seq_max_ge(s: Seq<i64>, j: int)
    requires
        0 <= j < s.len(),
    ensures
        s[j] <= seq_max(s),
    decreases s.len(),
{
    if j < s.len() - 1 {
        lemma_seq_max_ge(s.drop_last(), j);
    }
}

proof fn lemma_sets_max_ge(ds: Seq<Dataset<i64>>, i: int, j: int)
    requires
        0 <= i < ds.len(),
        0 <= j < ds[i].values@.len(),
    ensures
        ds[i].values@[j] <= sets_max(ds),
    decreases ds.len(),
{
    if i < ds.len() - 1 {
        lemma_sets_max_ge(ds.drop_last(), i, j);
    } else {
        lemma_seq_max_ge(ds[i].values@, j);
    }
}

/// Every value is at most the top of the value axis.
proof fn lemma_value_below_top(ds: Seq<Dataset<i64>>, i: int, j: int)
    requires
        0 <= i < ds.len(),
        0 <= j < ds[i].values@.len(),
    ensures
        ds[i].values@[j] <= top_value(ds),
{
    lemma_sets_max_ge(ds, i, j);
    crate::round::lemma_round_bounds(sets_max(ds), UNIT as int);
}

/// A rectangle of value space (y growing from `area.y0`) turned into
/// device space, where values grow up from `area.y1`.
pub open spec fn mirror_y(r: Rect, area: Rect) -> Rect {
    Rect { x0: r.x0, y0: (area.y0 + area.y1 - r.y1) as i64, x1: r.x1, y1: (area.y0 + area.y1 - r.y0) as i64 }
}

/// The filled block of series `d` in category `cat`.
pub open spec fn block_view(info: DrawingInfo, ds: Seq<Dataset<i64>>, d: int, cat: int) -> PrimitiveView {
    PrimitiveView::FilledRect {
        rect: mirror_y(info.block_rect_spec(d, cat, ds[d].values@[cat] as int), info.area),
        colour: dataset_colour(ds, d),
    }
}

/// The blocks of series `d`, one per category.
pub open spec fn block_row(info: DrawingInfo, ds: Seq<Dataset<i64>>, d: int) -> Seq<PrimitiveView> {
    Seq::new(info.nb_cats as nat, |cat: int| block_view(info, ds, d, cat))
}

/// The blocks of the first `d` series, series by series.
pub open spec fn blocks_upto(info: DrawingInfo, ds: Seq<Dataset<i64>>, d: int) -> Seq<PrimitiveView>
    decreases d,
{
    if d <= 0 {
        Seq::empty()
    } else {
        blocks_upto(info, ds, d - 1) + block_row(info, ds, d - 1)
    }
}

/// Middle of a horizontal span, rounded down.
pub open spec fn mid(span: (int, int)) -> int {
    floor_div(span.0 + span.1, 2)
}

/// Category names, centred under their blocks.
pub open spec fn cat_label_views(info: DrawingInfo, cats: Seq<String>, font: FontInfo) -> Seq<PrimitiveView> {
    Seq::new(
        cats.len(),
        |i: int|
            label(
                Point {
                    x: mid(info.cat_xbounds_spec(i)) as i64,
                    y: (info.area.y1 + LABEL_GAP + font.size) as i64,
                },
                cats[i]@,
                Alignment::Center,
                font,
            ),
    )
}

/// The value axis' title, turned upright, left of the widest tick label.
pub open spec fn title_views(axis: Option<String>, area: Rect, label_width: int, font: FontInfo) -> Seq<PrimitiveView> {
    match axis {
        Some(t) => seq![
            PrimitiveView::Text {
                pos: Point {
                    x: (area.x0 - 2 * LABEL_GAP - label_width) as i64,
                    y: floor_div(area.y0 + area.y1, 2) as i64,
                },
                content: t@,
                align: Alignment::Center,
                rotation: -90i64,
                font,
            },
        ],
        None => Seq::empty(),
    }
}

/// A grouped bar chart.
#[derive(Clone, Debug)]
pub struct BarChart {
    /// Space between the groups of two categories, in fixed-point steps.
    pub spacing: Option<u32>,
    /// Category names, along the x axis.
    pub categories: Vec<String>,
    /// Step of the value axis, in whole units.
    pub step: u32,
    /// Draw the value axis' grid lines? Default: yes.
    pub lines: Option<bool>,
    /// Title of the value axis.
    pub axis: Option<String>,
}

/// Default spacing between groups: five units.
pub const DEFAULT_SPACING: u32 = 5000;

impl BarChart {
    pub fn new() -> (r: BarChart)
        ensures
            r.spacing is None,
            r.categories@.len() == 0,
            r.step == 10,
            r.lines is None,
            r.axis is None,
    {
        BarChart { spacing: None, categories: Vec::new(), step: 10, lines: None, axis: None }
    }

    pub open spec fn lines_spec(&self) -> bool {
        match self.lines {
            Some(l) => l,
            None => true,
        }
    }

    pub open spec fn spacing_spec(&self) -> u32 {
        match self.spacing {
            Some(s) => s,
            None => DEFAULT_SPACING,
        }
    }

    pub fn lines(&self) -> (r: bool)
        ensures
            r == self.lines_spec(),
    {
        match self.lines {
            Some(l) => l,
            None => true,
        }
    }

    pub fn spacing(&self) -> (r: u32)
        ensures
            r == self.spacing_spec(),
    {
        match self.spacing {
            Some(s) => s,
            None => DEFAULT_SPACING,
        }
    }

    /// Whether the series can be drawn as this chart's bars in `area`.
    pub open spec fn layout_ok(&self, ds: Seq<Dataset<i64>>, area: Rect) -> bool {
        bars_ok(ds, area, self.spacing_spec()) && self.categories@.len() == nb_cats(ds)
    }

    /// The error for series that fail `layout_ok`.
    pub open spec fn layout_error(&self, e: Error, ds: Seq<Dataset<i64>>, area: Rect) -> bool {
        if !bars_ok(ds, area, self.spacing_spec()) {
            bars_error(e, ds, area, self.spacing_spec())
        } else {
            e is InvalidDatasets
        }
    }

    /// Ticks of the value axis, from 0 to the top value.
    pub open spec fn value_ticks(&self, ds: Seq<Dataset<i64>>, area: Rect) -> Seq<StepLabel> {
        ticks(area.height_spec(), 0, top_value(ds), self.step)
    }

    /// The chart: grid lines, tick labels, blocks, category names and
    /// the axis title, in that order.
    pub open spec fn views_spec(
        &self,
        ds: Seq<Dataset<i64>>,
        area: Rect,
        font: FontInfo,
        label_width: int,
    ) -> Seq<PrimitiveView> {
        let info = drawing_info_spec(ds, area, self.spacing_spec());
        let t = self.value_ticks(ds, area);
        let offs = t.map_values(|t: StepLabel| t.offset);
        grid_views(
            grids_spec(XY { x: false, y: self.lines_spec() }, Seq::empty(), offs, area),
        ) + tick_label_views(
            t,
            Point { x: (area.x0 - LABEL_GAP) as i64, y: area.y1 },
            false,
            Alignment::End,
            font,
        ) + blocks_upto(info, ds, ds.len() as int) + cat_label_views(info, self.categories@, font)
            + title_views(self.axis, area, label_width, font)
    }

    /// Lays the chart out in `area`, given the width of the widest tick
    /// label.
    pub fn layout(&self, datasets: &Vec<Dataset<i64>>, area: Rect, font: &FontInfo, label_width: i64) -> (r:
        Result<Vec<Primitive>, Error>)
        requires
            area.wf(),
            self.step > 0,
            0 <= label_width <= COORD_MAX,
        ensures
            match r {
                Ok(ps) => self.layout_ok(datasets@, area) && views(ps@) == self.views_spec(
                    datasets@,
                    area,
                    *font,
                    label_width as int,
                ),
                Err(e) => !self.layout_ok(datasets@, area) && self.layout_error(e, datasets@, area),
            },
    {
        let info = match DrawingInfo::new(datasets, area, self.spacing()) {
            Ok(i) => i,
            Err(e) => return Err(e),
        };
        if self.categories.len() != datasets[0].values.len() {
            return Err(Error::InvalidDatasets(String::from_str("category count must match the values of each dataset")));
        }
        let ghost ds = datasets@;
        let ticks = decide_steps(area.height(), 0, info.max_val, self.step);
        proof {
            crate::steps::lemma_steps_cover(area.height_spec(), 0, info.max_val as int, self.step);
        }
        let offs = tick_offsets(&ticks);
        let mut out: Vec<Primitive> = Vec::new();
        let no_steps: Vec<i64> = Vec::new();
        proof {
            assert(no_steps@ =~= Seq::<i64>::empty());
            assert forall|k: int| 0 <= k < offs@.len() implies 0 <= #[trigger] offs@[k] <= 2
                * COORD_MAX by {
                assert(offs@[k] == ticks@[k].offset);
            }
        }
        let grid = mk_grids(&XY { x: false, y: self.lines() }, &XY { x: no_steps, y: offs }, &area);
        push_grid_lines(&mut out, &grid);
        push_tick_labels(
            &mut out,
            &ticks,
            Point { x: area.x0 - LABEL_GAP, y: area.y1 },
            false,
            Alignment::End,
            font,
        );
        let ghost head = views(out@);
        let colours = series_colours(datasets);
        let flip = area.y0 + area.y1;
        let mut d: usize = 0;
        while d < datasets.len()
            invariant
                d <= ds.len(),
                ds == datasets@,
                area.wf(),
                info.nb_blocks == ds.len(),
                info.nb_cats == nb_cats(ds),
                info.max_val == top_value(ds),
                flip == area.y0 + area.y1,
                colours@ == crate::chart::colours_of(ds),
                info == drawing_info_spec(ds, area, self.spacing_spec()),
                info.wf(),
                bars_ok(ds, area, self.spacing_spec()),
                views(out@) =~= head + blocks_upto(info, ds, d as int),
            decreases ds.len() - d,
        {
            let vs = &datasets[d].values;
            proof { assert(ds[d as int].values@.len() == nb_cats(ds)); }
            let mut cat: usize = 0;
            while cat < vs.len()
                invariant
                    d < ds.len(),
                    ds == datasets@,
                    area.wf(),
                    bars_ok(ds, area, self.spacing_spec()),
                    info.nb_blocks == ds.len(),
                    info.max_val == top_value(ds),
                    flip == area.y0 + area.y1,
                    colours@ == crate::chart::colours_of(ds),
                    vs@ == ds[d as int].values@,
                    vs@.len() == info.nb_cats,
                    cat <= vs@.len(),
                    info == drawing_info_spec(ds, area, self.spacing_spec()),
                    info.wf(),
                    views(out@) =~= head + blocks_upto(info, ds, d as int) + block_row(info, ds, d as int).take(cat as int),
                decreases vs@.len() - cat,
            {
                proof {
                    lemma_value_below_top(ds, d as int, cat as int);
                    assert(vs@[cat as int] == ds[d as int].values@[cat as int]);
                    assert(value_ok(ds[d as int].values@[cat as int] as int));
                }
                let b = info.block_rect(d, cat, vs[cat]);
                proof {
                    assert(area.y0 <= b.y0 <= b.y1 <= area.y1);
                }
                let rect = Rect { x0: b.x0, y0: flip - b.y1, x1: b.x1, y1: flip - b.y0 };
                let p = Primitive::FilledRect { rect, colour: colours[d] };
                let ghost before = out@;
                out.push(p);
                proof {
                    lemma_views_push(before, p);
                    assert(p@ == block_view(info, ds, d as int, cat as int));
                    assert(views(out@) =~= head + blocks_upto(info, ds, d as int) + block_row(info, ds, d as int).take(cat as int + 1));
                }
                cat = cat + 1;
            }
            proof {
                assert(block_row(info, ds, d as int).take(cat as int) =~= block_row(info, ds, d as int));
            }
            d = d + 1;
        }
        let ghost mid_part = views(out@);
        let mut i: usize = 0;
        while i < self.categories.len()
            invariant
                i <= self.categories@.len(),
                self.categories@.len() == info.nb_cats,
                area.wf(),
                info == drawing_info_spec(ds, area, self.spacing_spec()),
                info.wf(),
                views(out@) =~= mid_part + cat_label_views(info, self.categories@, *font).take(i as int),
            decreases self.categories@.len() - i,
        {
            let (a, b) = info.cat_xbounds(i);
            let x = div_floor(a as i128 + b as i128, 2) as i64;
            let p = Primitive::Text {
                pos: Point { x, y: area.y1 + LABEL_GAP + font.size as i64 },
                content: self.categories[i].clone(),
                align: Alignment::Center,
                rotation: 0,
                font: font.copy(),
            };
            let ghost before = out@;
            out.push(p);
            proof {
                lemma_views_push(before, p);
                assert(views(out@) =~= mid_part + cat_label_views(info, self.categories@, *font).take(i as int + 1));
            }
            i = i + 1;
        }
        proof {
            assert(cat_label_views(info, self.categories@, *font).take(i as int) =~= cat_label_views(info, self.categories@, *font));
        }
        match &self.axis {
            Some(t) => {
                let p = Primitive::Text {
                    pos: Point {
                        x: area.x0 - 2 * LABEL_GAP - label_width,
                        y: div_floor(area.y0 as i128 + area.y1 as i128, 2) as i64,
                    },
                    content: t.clone(),
                    align: Alignment::Center,
                    rotation: -90,
                    font: font.copy(),
                };
                let ghost before = out@;
                out.push(p);
                proof {
                    lemma_views_push(before, p);
                    assert(seq![p@] =~= title_views(self.axis, area, label_width as int, *font));
                }
            },
            None => {},
        }
        proof {
            assert(ds.len() as int == info.nb_blocks);
            assert(views(out@) =~= self.views_spec(ds, area, *font, label_width as int));
        }
        Ok(out)
    }
}

impl BarChart {
    /// Whether `ps` is the chart laid out in `area` with the value axis'
    /// labels measuring `sizes`, one per tick: the title then stands left
    /// of the widest.
    pub open spec fn measured_layout(
        &self,
        info: ChartInfo<i64>,
        area: Rect,
        sizes: Seq<Size>,
        ps: Seq<Primitive>,
    ) -> bool {
        &&& sizes.len() == self.value_ticks(info.datasets@, area).len()
        &&& sizes_ok(sizes)
        &&& views(ps) == self.views_spec(info.datasets@, area, info.font_spec(), max_width(sizes))
    }

    /// Lays the chart out in `area`, measuring its tick labels with `m`.
    /// The series are checked before anything is measured.
    pub fn render_bars<M: Measure>(&self, info: &ChartInfo<i64>, area: Rect, m: &mut M) -> (r: Result<
        Vec<Primitive>,
        Error,
    >)
        requires
            area.wf(),
            self.step > 0,
        ensures
            !self.layout_ok(info.datasets@, area) ==> r is Err && self.layout_error(
                r->Err_0,
                info.datasets@,
                area,
            ),
            r is Ok ==> self.layout_ok(info.datasets@, area) && exists|sizes: Seq<Size>|
                self.measured_layout(*info, area, sizes, r->Ok_0@),
    {
        let dinfo = match DrawingInfo::new(&info.datasets, area, self.spacing()) {
            Ok(d) => d,
            Err(e) => return Err(e),
        };
        if self.categories.len() != info.datasets[0].values.len() {
            return Err(Error::InvalidDatasets(String::from_str("category count must match the values of each dataset")));
        }
        let font = info.font();
        let ticks = decide_steps(area.height(), 0, dinfo.max_val, self.step);
        let sizes = match measure_labels(&ticks, &font, m) {
            Ok(s) => s,
            Err(e) => return Err(e),
        };
        let (w, _) = widest(&sizes);
        let r = self.layout(&info.datasets, area, &font, w);
        proof {
            if r is Ok {
                assert(self.measured_layout(*info, area, sizes@, r->Ok_0@));
            }
        }
        r
    }
}

impl ChartType for BarChart {
    type DataPoint = i64;

    open spec fn config_ok(&self) -> bool {
        self.step > 0
    }

    open spec fn lays_out(&self, info: ChartInfo<i64>, area: Rect, ps: Seq<Primitive>) -> bool {
        self.layout_ok(info.datasets@, area) && exists|sizes: Seq<Size>|
            self.measured_layout(info, area, sizes, ps)
    }

    /// Series that fail `layout_ok`: no series, series of unequal length,
    /// values out of range, too little width, or a category count that is
    /// not the series' length.
    open spec fn rejects(&self, info: ChartInfo<i64>, area: Rect) -> bool {
        !self.layout_ok(info.datasets@, area)
    }

    open spec fn rejection(&self, info: ChartInfo<i64>, area: Rect, e: Error) -> bool {
        self.layout_error(e, info.datasets@, area)
    }

    fn render_datasets<M: Measure>(&self, info: &ChartInfo<i64>, area: Rect, m: &mut M) -> (r: Result<
        Vec<Primitive>,
        Error,
    >) {
        self.render_bars(info, area, m)
    }
}

} // verus!
