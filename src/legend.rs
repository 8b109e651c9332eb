//! The legend: one row per series, a colour swatch then the series' name,
//! stacked down from near the upper right corner of the plot.

use vstd::prelude::*;

use crate::chart::{Colour, FontInfo};
use crate::draw::{lemma_views_push, views, Alignment, Primitive, PrimitiveView};
use crate::geom::{Point, Rect, Size, COORD_MAX};
use crate::grid::LABEL_GAP;
use crate::round::{div_floor, floor_div};

verus! {

/// Alpha of a swatch's background.
pub const SWATCH_ALPHA: u8 = 128;

/// Widest of `sizes` (0 for none).
pub open spec fn max_width(sizes: Seq<Size>) -> int
    decreases sizes.len(),
{
    if sizes.len() == 0 {
        0
    } else {
        let m = max_width(sizes.drop_last());
        if sizes.last().width > m { sizes.last().width as int } else { m }
    }
}

/// Tallest of `sizes` (0 for none).
pub open spec fn max_height(sizes: Seq<Size>) -> int
    decreases sizes.len(),
{
    if sizes.len() == 0 {
        0
    } else {
        let m = max_height(sizes.drop_last());
        if sizes.last().height > m { sizes.last().height as int } else { m }
    }
}

/// Sum of the heights of `sizes`.
pub open spec fn total_height(sizes: Seq<Size>) -> int
    decreases sizes.len(),
{
    if sizes.len() == 0 {
        0
    } else {
        total_height(sizes.drop_last()) + sizes.last().height
    }
}

pub open spec fn sizes_ok(sizes: Seq<Size>) -> bool {
    forall|i: int| 0 <= i < sizes.len() ==> crate::draw::size_ok(#[trigger] sizes[i])
}

/// Left edge of the legend: its right edge sits a tenth of the area's
/// width in from the area's right edge.
pub open spec fn legend_left(area: Rect, sizes: Seq<Size>) -> int {
    area.x1 - floor_div(area.width_spec(), 10) - (max_width(sizes) + max_height(sizes) + LABEL_GAP)
}

/// Top edge of the legend: a tenth of the area's height below its top.
pub open spec fn legend_top(area: Rect) -> int {
    area.y0 + floor_div(area.height_spec(), 10)
}

/// Row `k`: a half-transparent swatch as tall as the name, a solid dot in
/// its middle, then the name.
pub open spec fn legend_row(
    area: Rect,
    names: Seq<Seq<char>>,
    colours: Seq<Colour>,
    sizes: Seq<Size>,
    font: FontInfo,
    k: int,
) -> Seq<PrimitiveView> {
    let left = legend_left(area, sizes);
    let y = legend_top(area) + total_height(sizes.take(k));
    let h = sizes[k].height as int;
    seq![
        PrimitiveView::FilledRect {
            rect: Rect { x0: left as i64, y0: y as i64, x1: (left + h) as i64, y1: (y + h) as i64 },
            colour: Colour { a: SWATCH_ALPHA, ..colours[k] },
        },
        PrimitiveView::Dot {
            center: Point { x: (left + floor_div(h, 2)) as i64, y: (y + floor_div(h, 2)) as i64 },
            radius: floor_div(h, 4) as i64,
            colour: colours[k],
        },
        PrimitiveView::Text {
            pos: Point { x: (left + max_height(sizes) + LABEL_GAP) as i64, y: (y + h) as i64 },
            content: names[k],
            align: Alignment::Start,
            rotation: 0,
            font,
        },
    ]
}

/// The rows of the first `k` series.
pub open spec fn legend_rows(
    area: Rect,
    names: Seq<Seq<char>>,
    colours: Seq<Colour>,
    sizes: Seq<Size>,
    font: FontInfo,
    k: int,
) -> Seq<PrimitiveView>
    decreases k,
{
    if k <= 0 {
        Seq::empty()
    } else {
        legend_rows(area, names, colours, sizes, font, k - 1) + legend_row(
            area,
            names,
            colours,
            sizes,
            font,
            k - 1,
        )
    }
}

pub proof fn lemma_max_bounds(sizes: Seq<Size>)
    requires
        sizes_ok(sizes),
    ensures
        0 <= max_width(sizes) <= COORD_MAX,
        0 <= max_height(sizes) <= COORD_MAX,
    decreases sizes.len(),
{
    if sizes.len() > 0 {
        lemma_max_bounds(sizes.drop_last());
        assert(crate::draw::size_ok(sizes[sizes.len() - 1]));
    }
}

proof fn lemma_maxima(sizes: Seq<Size>, k: int)
    requires
        sizes_ok(sizes),
        0 <= k < sizes.len(),
    ensures
        sizes[k].width <= max_width(sizes) <= COORD_MAX,
        sizes[k].height <= max_height(sizes) <= COORD_MAX,
        0 <= max_width(sizes),
        0 <= max_height(sizes),
    decreases sizes.len(),
{
    lemma_max_bounds(sizes);
    if k < sizes.len() - 1 {
        lemma_maxima(sizes.drop_last(), k);
    }
}

proof fn lemma_total_prefix(sizes: Seq<Size>, k: int)
    requires
        sizes_ok(sizes),
        0 <= k < sizes.len(),
    ensures
        total_height(sizes.take(k + 1)) == total_height(sizes.take(k)) + sizes[k].height,
        0 <= total_height(sizes.take(k)) <= k * COORD_MAX,
    decreases k,
{
    assert(sizes.take(k + 1).drop_last() =~= sizes.take(k));
    if k > 0 {
        lemma_total_prefix(sizes, k - 1);
        assert(crate::draw::size_ok(sizes[k - 1]));
    }
}

/// Width of the widest and height of the tallest of `sizes` (0 for none).
pub fn widest(sizes: &Vec<Size>) -> (r: (i64, i64))
    requires
        sizes_ok(sizes@),
    ensures
        r.0 == max_width(sizes@),
        r.1 == max_height(sizes@),
        0 <= r.0 <= COORD_MAX,
        0 <= r.1 <= COORD_MAX,
{
    proof { lemma_max_bounds(sizes@); }
    let mut w: i64 = 0;
    let mut h: i64 = 0;
    let mut k: usize = 0;
    while k < sizes.len()
        invariant
            k <= sizes@.len(),
            sizes_ok(sizes@),
            w == max_width(sizes@.take(k as int)),
            h == max_height(sizes@.take(k as int)),
        decreases sizes@.len() - k,
    {
        proof {
            assert(sizes@.take(k as int + 1).drop_last() =~= sizes@.take(k as int));
            assert(crate::draw::size_ok(sizes@[k as int]));
        }
        if sizes[k].width > w {
            w = sizes[k].width;
        }
        if sizes[k].height > h {
            h = sizes[k].height;
        }
        k = k + 1;
    }
    proof { assert(sizes@.take(k as int) =~= sizes@); }
    (w, h)
}

/// Appends the legend rows for series named `names`, in `colours`, whose
/// names measure `sizes`, when the rows fit in the coordinate range.
/// Returns whether they did; nothing is appended when they do not.
pub fn push_legend(
    out: &mut Vec<Primitive>,
    area: &Rect,
    names: &Vec<String>,
    colours: &Vec<Colour>,
    sizes: &Vec<Size>,
    font: &FontInfo,
) -> (fits: bool)
    requires
        area.wf(),
        sizes_ok(sizes@),
        names@.len() == sizes@.len(),
        colours@.len() == sizes@.len(),
    ensures
        fits == (total_height(sizes@) <= COORD_MAX),
        fits ==> views(final(out)@) == views(old(out)@) + legend_rows(
            *area,
            names@.map_values(|s: String| s@),
            colours@,
            sizes@,
            *font,
            sizes@.len() as int,
        ),
        !fits ==> final(out)@ == old(out)@,
{
    let ghost nm = names@.map_values(|s: String| s@);
    let n = sizes.len();
    let mut total: i64 = 0;
    let mut k: usize = 0;
    while k < n
        invariant
            n == sizes@.len(),
            k <= n,
            sizes_ok(sizes@),
            total == total_height(sizes@.take(k as int)),
            total <= COORD_MAX,
        decreases n - k,
    {
        proof {
            lemma_total_prefix(sizes@, k as int);
            assert(crate::draw::size_ok(sizes@[k as int]));
        }
        total = total + sizes[k].height;
        if total > COORD_MAX {
            proof {
                assert forall|j: int| k < j <= n implies total_height(sizes@.take(j)) >= total by {
                    lemma_total_grows(sizes@, k as int + 1, j);
                }
                assert(sizes@.take(n as int) =~= sizes@);
            }
            return false;
        }
        k = k + 1;
    }
    proof { assert(sizes@.take(n as int) =~= sizes@); }
    let (mw, mh) = widest(sizes);
    proof { lemma_max_bounds(sizes@); }
    let left = area.x1 - div_floor(area.width() as i128, 10) as i64 - (mw + mh + LABEL_GAP);
    let top = area.y0 + div_floor(area.height() as i128, 10) as i64;
    let ghost start = views(out@);
    let mut y = top;
    let mut k: usize = 0;
    while k < n
        invariant
            n == sizes@.len(),
            n == names@.len(),
            n == colours@.len(),
            k <= n,
            area.wf(),
            sizes_ok(sizes@),
            total_height(sizes@) <= COORD_MAX,
            mw == max_width(sizes@),
            mh == max_height(sizes@),
            left == legend_left(*area, sizes@),
            top == legend_top(*area),
            y == top + total_height(sizes@.take(k as int)),
            nm == names@.map_values(|s: String| s@),
            views(out@) =~= start + legend_rows(*area, nm, colours@, sizes@, *font, k as int),
        decreases n - k,
    {
        proof {
            lemma_total_prefix(sizes@, k as int);
            lemma_total_grows(sizes@, k as int + 1, n as int);
            lemma_maxima(sizes@, k as int);
            assert(sizes@.take(n as int) =~= sizes@);
        }
        let h = sizes[k].height;
        let c = colours[k];
        let swatch = Primitive::FilledRect {
            rect: Rect { x0: left, y0: y, x1: left + h, y1: y + h },
            colour: c.with_alpha(SWATCH_ALPHA),
        };
        let half = div_floor(h as i128, 2) as i64;
        let dot = Primitive::Dot {
            center: Point { x: left + half, y: y + half },
            radius: div_floor(h as i128, 4) as i64,
            colour: c,
        };
        let text = Primitive::Text {
            pos: Point { x: left + mh + LABEL_GAP, y: y + h },
            content: names[k].clone(),
            align: Alignment::Start,
            rotation: 0,
            font: font.copy(),
        };
        let ghost before = out@;
        out.push(swatch);
        out.push(dot);
        out.push(text);
        proof {
            lemma_views_push(before, swatch);
            lemma_views_push(before.push(swatch), dot);
            lemma_views_push(before.push(swatch).push(dot), text);
            assert(nm[k as int] == names@[k as int]@);
            assert(seq![swatch@, dot@, text@] =~= legend_row(*area, nm, colours@, sizes@, *font, k as int));
        }
        y = y + h;
        k = k + 1;
    }
    true
}

proof fn lemma_total_grows(sizes: Seq<Size>, a: int, b: int)
    requires
        sizes_ok(sizes),
        0 <= a <= b <= sizes.len(),
    ensures
        total_height(sizes.take(a)) <= total_height(sizes.take(b)),
    decreases b - a,
{
    if a < b {
        lemma_total_grows(sizes, a, b - 1);
        lemma_total_prefix(sizes, b - 1);
        assert(crate::draw::size_ok(sizes[b - 1]));
    }
}

} // verus!
