//! What layout emits: drawing primitives in device space, and the one
//! question layout asks of a drawing backend, the size of a text.

use vstd::prelude::*;

use crate::chart::{Colour, Error, FontInfo};
use crate::geom::{Line, Point, Rect, Size, COORD_MAX};

verus! {

/// Where a text stands relative to its anchor point.
#[derive(Clone, Copy, Debug, PartialEq, Eq, Structural)]
pub enum Alignment {
    Start,
    Center,
    End,
}

/// One drawing primitive. Lengths are in fixed-point steps, rotations in
/// degrees (counter-clockwise negative, as device y grows downwards).
#[derive(Clone, Debug)]
pub enum Primitive {
    Line { line: Line, colour: Colour, width: u32 },
    FilledRect { rect: Rect, colour: Colour },
    Dot { center: Point, radius: i64, colour: Colour },
    StrokedPath { points: Vec<Point>, colour: Colour, thickness: u32 },
    Text { pos: Point, content: String, align: Alignment, rotation: i64, font: FontInfo },
}

/// What a primitive shows, with its text and points as sequences.
pub enum PrimitiveView {
    Line { line: Line, colour: Colour, width: u32 },
    FilledRect { rect: Rect, colour: Colour },
    Dot { center: Point, radius: i64, colour: Colour },
    StrokedPath { points: Seq<Point>, colour: Colour, thickness: u32 },
    Text { pos: Point, content: Seq<char>, align: Alignment, rotation: i64, font: FontInfo },
}

impl View for Primitive {
    type V = PrimitiveView;

    open spec fn view(&self) -> PrimitiveView {
        match self {
            Primitive::Line { line, colour, width } => PrimitiveView::Line {
                line: *line,
                colour: *colour,
                width: *width,
            },
            Primitive::FilledRect { rect, colour } => PrimitiveView::FilledRect {
                rect: *rect,
                colour: *colour,
            },
            Primitive::Dot { center, radius, colour } => PrimitiveView::Dot {
                center: *center,
                radius: *radius,
                colour: *colour,
            },
            Primitive::StrokedPath { points, colour, thickness } => PrimitiveView::StrokedPath {
                points: points@,
                colour: *colour,
                thickness: *thickness,
            },
            Primitive::Text { pos, content, align, rotation, font } => PrimitiveView::Text {
                pos: *pos,
                content: content@,
                align: *align,
                rotation: *rotation,
                font: *font,
            },
        }
    }
}

/// The views of a list of primitives.
pub open spec fn views(ps: Seq<Primitive>) -> Seq<PrimitiveView> {
    ps.map_values(|p: Primitive| p@)
}

pub proof fn lemma_views_push(s: Seq<Primitive>, p: Primitive)
    ensures
        views(s.push(p)) == views(s).push(p@),
{
    assert(views(s.push(p)) =~= views(s).push(p@));
}

/// Gray stroke one unit wide.
pub open spec fn grid_line(line: Line) -> PrimitiveView {
    PrimitiveView::Line { line, colour: crate::chart::gray(), width: 1000 }
}

/// A text in the label font, not rotated.
pub open spec fn label(pos: Point, content: Seq<char>, align: Alignment, font: FontInfo) -> PrimitiveView {
    PrimitiveView::Text { pos, content, align, rotation: 0, font }
}

/// A text measurer: a drawing backend that sets `text` in `font` and
/// reports the size it takes, or fails to resolve the font.
pub trait Measure {
    fn text_size(&mut self, text: &str, font: &FontInfo) -> Result<Size, Error>;
}

/// Whether a measured size is usable by layout.
pub open spec fn size_ok(s: Size) -> bool {
    0 <= s.width <= COORD_MAX && 0 <= s.height <= COORD_MAX
}

/// A measurement as layout takes it: a usable size stays, a size out of
/// range becomes `TextBuild`, an error stays the same error.
pub fn checked_size(r: Result<Size, Error>) -> (out: Result<Size, Error>)
    ensures
        match r {
            Ok(s) => if size_ok(s) {
                out == Ok::<Size, Error>(s)
            } else {
                out is Err && out->Err_0 is TextBuild
            },
            Err(e) => out == Err::<Size, Error>(e),
        },
{
    match r {
        Ok(s) => {
            if 0 <= s.width && s.width <= COORD_MAX && 0 <= s.height && s.height <= COORD_MAX {
                Ok(s)
            } else {
                Err(Error::TextBuild(String::from_str("text size out of range")))
            }
        },
        Err(e) => Err(e),
    }
}

/// Measures `text` with `m` and checks the result (see `checked_size`).
pub fn measure<M: Measure>(m: &mut M, text: &str, font: &FontInfo) -> (r: Result<Size, Error>)
    ensures
        r is Ok ==> size_ok(r->Ok_0),
{
    checked_size(m.text_size(text, font))
}

} // verus!
