//! Chart types behind one interface, and the chart that wraps one of them
//! with its series, margins, legend and caption.

use vstd::prelude::*;

use crate::bar::BarChart;
use crate::chart::{colours_of, series_colours, ChartInfo, Dataset, Error, FontInfo, XY};
use crate::draw::{lemma_views_push, measure, views, Alignment, Measure, Primitive, PrimitiveView};
use crate::geom::{Point, Rect, Size, COORD_MAX};
use crate::round::{div_floor, floor_div};
use crate::legend::{legend_rows, push_legend, sizes_ok};
use crate::scatter::XYScatter;

verus! {

/// A family of charts: how its series are laid out in a plot area.
pub trait ChartType {
    type DataPoint;

    /// Whether the chart type's own settings can be laid out.
    spec fn config_ok(&self) -> bool;

    /// Whether `ps` lays out the series of `info` in `area`, for some
    /// measurements of its texts.
    spec fn lays_out(&self, info: ChartInfo<Self::DataPoint>, area: Rect, ps: Seq<Primitive>) -> bool;

    /// Whether the chart type refuses the series of `info` in `area`
    /// whatever the measurements, before measuring anything.
    spec fn rejects(&self, info: ChartInfo<Self::DataPoint>, area: Rect) -> bool;

    /// Whether `e` is the error the chart type gives for series it refuses.
    spec fn rejection(&self, info: ChartInfo<Self::DataPoint>, area: Rect, e: Error) -> bool;

    fn render_datasets<M: Measure>(
        &self,
        info: &ChartInfo<Self::DataPoint>,
        area: Rect,
        m: &mut M,
    ) -> (r: Result<Vec<Primitive>, Error>)
        requires
            area.wf(),
            self.config_ok(),
        ensures
            r is Ok ==> self.lays_out(*info, area, r->Ok_0@),
            self.rejects(*info, area) ==> r is Err && self.rejection(*info, area, r->Err_0),
    ;
}

/// `area` with `margins` taken off each side, when that leaves a
/// rectangle.
pub open spec fn shrink_spec(area: Rect, margins: XY<u32>) -> Rect {
    Rect {
        x0: (area.x0 + margins.x) as i64,
        y0: (area.y0 + margins.y) as i64,
        x1: (area.x1 - margins.x) as i64,
        y1: (area.y1 - margins.y) as i64,
    }
}

pub open spec fn shrink_ok(area: Rect, margins: XY<u32>) -> bool {
    area.x0 + 2 * margins.x <= area.x1 && area.y0 + 2 * margins.y <= area.y1
}

/// Takes `margins` off each side of `area`; fails when too little is left.
pub fn shrink(area: &Rect, margins: XY<u32>) -> (r: Result<Rect, Error>)
    requires
        area.wf(),
    ensures
        match r {
            Ok(inner) => shrink_ok(*area, margins) && inner == shrink_spec(*area, margins)
                && inner.wf(),
            Err(e) => !shrink_ok(*area, margins) && e is NotEnoughSpace,
        },
{
    let mx = margins.x as i64;
    let my = margins.y as i64;
    if area.x0 + 2 * mx > area.x1 {
        return Err(Error::NotEnoughSpace(2 * mx as u128, (area.x1 - area.x0) as i128, String::from_str("margins across")));
    }
    if area.y0 + 2 * my > area.y1 {
        return Err(Error::NotEnoughSpace(2 * my as u128, (area.y1 - area.y0) as i128, String::from_str("margins down")));
    }
    Ok(Rect { x0: area.x0 + mx, y0: area.y0 + my, x1: area.x1 - mx, y1: area.y1 - my })
}

/// The caption, when there is one: centred in the top margin.
pub open spec fn caption_views(
    area: Rect,
    margins: XY<u32>,
    caption: Option<String>,
    font: FontInfo,
) -> Seq<PrimitiveView> {
    match caption {
        Some(c) => seq![
            PrimitiveView::Text {
                pos: Point {
                    x: floor_div(area.x0 + area.x1, 2) as i64,
                    y: (area.y0 + floor_div(margins.y as int, 2)) as i64,
                },
                content: c@,
                align: Alignment::Center,
                rotation: 0,
                font,
            },
        ],
        None => Seq::empty(),
    }
}

/// Names of the series.
pub open spec fn names_of<Pt>(ds: Seq<Dataset<Pt>>) -> Seq<Seq<char>> {
    ds.map_values(|d: Dataset<Pt>| d.extra.name@)
}


/// A chart: a chart type's settings and the shared description.
#[derive(Clone, Debug)]
pub struct Chart<C, Pt> {
    pub extra: C,
    pub info: ChartInfo<Pt>,
}

impl<C: ChartType> Chart<C, C::DataPoint> {
    /// Whether `ps` is the chart type's layout of the series in the area
    /// left inside the margins, followed by the legend's rows for some sizes
    /// of the series' names, then the caption.
    pub open spec fn legend_follows(&self, area: Rect, ps: Seq<Primitive>) -> bool {
        exists|body: Seq<Primitive>, sizes: Seq<Size>|
            self.extra.lays_out(self.info, shrink_spec(area, self.info.margins_spec()), body)
                && views(ps) == views(body) + legend_rows(
                shrink_spec(area, self.info.margins_spec()),
                names_of(self.info.datasets@),
                colours_of(self.info.datasets@),
                sizes,
                self.info.font_spec(),
                self.info.datasets@.len() as int,
            ) + caption_views(area, self.info.margins_spec(), self.info.caption, self.info.font_spec())
    }

    /// Whether the chart type refuses the series in the area left inside
    /// the margins.
    pub open spec fn refused(&self, area: Rect) -> bool {
        shrink_ok(area, self.info.margins_spec()) && self.extra.rejects(
            self.info,
            shrink_spec(area, self.info.margins_spec()),
        )
    }

    /// Whether `e` is the chart type's error for refused series, passed on
    /// unchanged; no legend is drawn then.
    pub open spec fn refusal(&self, area: Rect, e: Error) -> bool {
        self.extra.rejection(self.info, shrink_spec(area, self.info.margins_spec()), e)
    }

    /// Lays the chart out in `area`: the margins are taken off, the chart
    /// type lays its series out in what is left, and the legend goes on
    /// top.
    pub fn render<M: Measure>(&self, area: &Rect, m: &mut M) -> (r: Result<Vec<Primitive>, Error>)
        requires
            area.wf(),
            self.extra.config_ok(),
        ensures
            !shrink_ok(*area, self.info.margins_spec()) ==> r is Err && r->Err_0 is NotEnoughSpace,
            self.refused(*area) ==> r is Err && self.refusal(*area, r->Err_0),
            r is Ok ==> shrink_ok(*area, self.info.margins_spec()) && self.legend_follows(
                *area,
                r->Ok_0@,
            ),
    {
        let inner = match shrink(area, self.info.margins()) {
            Ok(i) => i,
            Err(e) => return Err(e),
        };
        let mut out = match self.extra.render_datasets(&self.info, inner, m) {
            Ok(ps) => ps,
            Err(e) => return Err(e),
        };
        let ghost body = out@;
        proof { assert(inner == shrink_spec(*area, self.info.margins_spec())); }
        let font = self.info.font();
        let ds = &self.info.datasets;
        let colours = series_colours(ds);
        let mut names: Vec<String> = Vec::new();
        let mut sizes: Vec<Size> = Vec::new();
        let mut i: usize = 0;
        while i < ds.len()
            invariant
                i <= ds@.len(),
                ds == &self.info.datasets,
                shrink_ok(*area, self.info.margins_spec()),
                !self.refused(*area),
                names@.len() == i,
                sizes@.len() == i,
                names@.map_values(|s: String| s@) =~= names_of(ds@).take(i as int),
                colours@ == colours_of(ds@),
                sizes_ok(sizes@),
            decreases ds@.len() - i,
        {
            let name = ds[i].extra.name.clone();
            let s = match measure(m, name.as_str(), &font) {
                Ok(s) => s,
                Err(e) => return Err(e),
            };
            names.push(name);
            sizes.push(s);
            proof {
                assert(names@.map_values(|s: String| s@) =~= names_of(ds@).take(i as int + 1));
            }
            i = i + 1;
        }
        proof {
            assert(names_of(ds@).take(i as int) =~= names_of(ds@));
        }
        if !push_legend(&mut out, &inner, &names, &colours, &sizes, &font) {
            return Err(Error::NotEnoughSpace(ds.len() as u128, COORD_MAX as i128, String::from_str("legend height")));
        }
        let ghost with_legend = out@;
        proof {
            assert(views(with_legend) == views(body) + legend_rows(
                shrink_spec(*area, self.info.margins_spec()),
                names_of(self.info.datasets@),
                colours_of(self.info.datasets@),
                sizes@,
                self.info.font_spec(),
                self.info.datasets@.len() as int,
            ));
        }
        match &self.info.caption {
            Some(c) => {
                let p = Primitive::Text {
                    pos: Point {
                        x: div_floor(area.x0 as i128 + area.x1 as i128, 2) as i64,
                        y: area.y0 + div_floor(self.info.margins().y as i128, 2) as i64,
                    },
                    content: c.clone(),
                    align: Alignment::Center,
                    rotation: 0,
                    font: font.copy(),
                };
                out.push(p);
                proof {
                    lemma_views_push(with_legend, p);
                    assert(seq![p@] =~= caption_views(
                        *area,
                        self.info.margins_spec(),
                        self.info.caption,
                        self.info.font_spec(),
                    ));
                }
            },
            None => {
                proof {
                    assert(views(out@) =~= views(with_legend) + caption_views(
                        *area,
                        self.info.margins_spec(),
                        self.info.caption,
                        self.info.font_spec(),
                    ));
                }
            },
        }
        proof {
            assert(views(out@) == views(body) + legend_rows(
                shrink_spec(*area, self.info.margins_spec()),
                names_of(self.info.datasets@),
                colours_of(self.info.datasets@),
                sizes@,
                self.info.font_spec(),
                self.info.datasets@.len() as int,
            ) + caption_views(*area, self.info.margins_spec(), self.info.caption, self.info.font_spec()));
        }
        Ok(out)
    }
}

/// The chart types this library lays out.
#[derive(Clone, Debug)]
pub enum Charts {
    XYScatter(Chart<XYScatter, XY<i64>>),
    Bar(Chart<BarChart, i64>),
}

impl Charts {
    pub open spec fn config_ok(&self) -> bool {
        match self {
            Charts::XYScatter(c) => c.extra.config_ok(),
            Charts::Bar(c) => c.extra.config_ok(),
        }
    }

    pub open spec fn margins_spec(&self) -> XY<u32> {
        match self {
            Charts::XYScatter(c) => c.info.margins_spec(),
            Charts::Bar(c) => c.info.margins_spec(),
        }
    }

    /// Lays out whichever chart this is (see `Chart::render`).
    pub fn render<M: Measure>(&self, area: &Rect, m: &mut M) -> (r: Result<Vec<Primitive>, Error>)
        requires
            area.wf(),
            self.config_ok(),
        ensures
            !shrink_ok(*area, self.margins_spec()) ==> r is Err && r->Err_0 is NotEnoughSpace,
            match self {
                Charts::XYScatter(c) => c.refused(*area) ==> r is Err && c.refusal(*area, r->Err_0),
                Charts::Bar(c) => c.refused(*area) ==> r is Err && c.refusal(*area, r->Err_0),
            },
            r is Ok ==> match self {
                Charts::XYScatter(c) => c.legend_follows(*area, r->Ok_0@),
                Charts::Bar(c) => c.legend_follows(*area, r->Ok_0@),
            },
    {
        match self {
            Charts::XYScatter(c) => c.render(area, m),
            Charts::Bar(c) => c.render(area, m),
        }
    }
}

} // verus!
