//! The chart description shared by every chart type: datasets, fonts,
//! margins and caption, and the errors of layout.

use vstd::prelude::*;

verus! {

/// A pair of values, one per axis.
#[derive(Clone, Copy, Debug, PartialEq, Eq)]
pub struct XY<T> {
    pub x: T,
    pub y: T,
}

impl<T> XY<T> {
    pub fn new(x: T, y: T) -> (r: XY<T>)
        ensures
            r.x == x,
            r.y == y,
    {
        XY { x, y }
    }

    /// Applies `f` to both values.
    pub fn map<R, F: Fn(&T) -> R>(&self, f: F) -> (r: XY<R>)
        requires
            f.requires((&self.x,)),
            f.requires((&self.y,)),
        ensures
            f.ensures((&self.x,), r.x),
            f.ensures((&self.y,), r.y),
    {
        XY { x: f(&self.x), y: f(&self.y) }
    }
}

/// A colour with an alpha channel, each channel from 0 to 255.
#[derive(Clone, Copy, Debug, PartialEq, Eq, Structural)]
pub struct Colour {
    pub r: u8,
    pub g: u8,
    pub b: u8,
    pub a: u8,
}

impl Colour {
    pub fn rgba(r: u8, g: u8, b: u8, a: u8) -> (c: Colour)
        ensures
            c == (Colour { r, g, b, a }),
    {
        Colour { r, g, b, a }
    }

    /// The same colour with another alpha.
    pub fn with_alpha(&self, a: u8) -> (c: Colour)
        ensures
            c == (Colour { a, ..*self }),
    {
        Colour { r: self.r, g: self.g, b: self.b, a }
    }
}

pub open spec fn black() -> Colour {
    Colour { r: 0, g: 0, b: 0, a: 255 }
}

pub open spec fn gray() -> Colour {
    Colour { r: 128, g: 128, b: 128, a: 255 }
}

impl Colour {
    pub fn black() -> (c: Colour)
        ensures
            c == black(),
    {
        Colour { r: 0, g: 0, b: 0, a: 255 }
    }

    pub fn gray() -> (c: Colour)
        ensures
            c == gray(),
    {
        Colour { r: 128, g: 128, b: 128, a: 255 }
    }
}

/// Colours given in turn to series that name none.
pub open spec fn palette(i: int) -> Colour {
    let k = i % 6;
    if k == 0 { Colour { r: 31, g: 119, b: 180, a: 255 } }
    else if k == 1 { Colour { r: 255, g: 127, b: 14, a: 255 } }
    else if k == 2 { Colour { r: 44, g: 160, b: 44, a: 255 } }
    else if k == 3 { Colour { r: 214, g: 39, b: 40, a: 255 } }
    else if k == 4 { Colour { r: 148, g: 103, b: 189, a: 255 } }
    else { Colour { r: 140, g: 86, b: 75, a: 255 } }
}

pub fn palette_colour(i: usize) -> (c: Colour)
    ensures
        c == palette(i as int),
{
    let k = i % 6;
    if k == 0 { Colour { r: 31, g: 119, b: 180, a: 255 } }
    else if k == 1 { Colour { r: 255, g: 127, b: 14, a: 255 } }
    else if k == 2 { Colour { r: 44, g: 160, b: 44, a: 255 } }
    else if k == 3 { Colour { r: 214, g: 39, b: 40, a: 255 } }
    else if k == 4 { Colour { r: 148, g: 103, b: 189, a: 255 } }
    else { Colour { r: 140, g: 86, b: 75, a: 255 } }
}

/// Colour of a series: its own, else palette entry `turn`.
pub open spec fn series_colour(meta: DatasetMeta, turn: int) -> Colour {
    match meta.colour {
        Some(c) => c,
        None => palette(turn),
    }
}

impl DatasetMeta {
    /// The series' colour, palette entry `turn` when it names none.
    pub fn colour_at(&self, turn: usize) -> (c: Colour)
        ensures
            c == series_colour(*self, turn as int),
    {
        match self.colour {
            Some(c) => c,
            None => palette_colour(turn),
        }
    }
}

/// How many of the first `i` series name no colour of their own.
pub open spec fn uncoloured_before<Pt>(ds: Seq<Dataset<Pt>>, i: int) -> int
    decreases i,
{
    if i <= 0 {
        0
    } else {
        uncoloured_before(ds, i - 1) + if ds[i - 1].extra.colour is None { 1int } else { 0int }
    }
}

/// Colour of series `i`: its own, else the next palette entry, counting
/// only the earlier series that name no colour.
pub open spec fn dataset_colour<Pt>(ds: Seq<Dataset<Pt>>, i: int) -> Colour {
    series_colour(ds[i].extra, uncoloured_before(ds, i))
}

/// Colours of all series, in order.
pub open spec fn colours_of<Pt>(ds: Seq<Dataset<Pt>>) -> Seq<Colour> {
    Seq::new(ds.len(), |i: int| dataset_colour(ds, i))
}

/// The colour of each series (see `dataset_colour`).
pub fn series_colours<Pt>(ds: &Vec<Dataset<Pt>>) -> (r: Vec<Colour>)
    ensures
        r@ == colours_of(ds@),
{
    let mut out: Vec<Colour> = Vec::new();
    let mut turn: usize = 0;
    let mut i: usize = 0;
    while i < ds.len()
        invariant
            i <= ds@.len(),
            turn <= i,
            turn == uncoloured_before(ds@, i as int),
            out@ =~= colours_of(ds@).take(i as int),
        decreases ds@.len() - i,
    {
        let meta = &ds[i].extra;
        out.push(meta.colour_at(turn));
        if meta.colour.is_none() {
            turn = turn + 1;
        }
        i = i + 1;
    }
    proof { assert(colours_of(ds@).take(i as int) =~= colours_of(ds@)); }
    out
}

/// A font family given by name.
#[derive(Clone, Debug, PartialEq, Eq)]
pub struct FontStore(pub String);

impl FontStore {
    /// The family's name.
    pub fn family(&self) -> (r: &str)
        ensures
            r@ == self.0@,
    {
        self.0.as_str()
    }
}

/// The generic font families.
#[derive(Clone, Copy, Debug, PartialEq, Eq, Structural)]
pub enum GenericFamily {
    Serif,
    SansSerif,
    Monospace,
}

#[derive(Clone, Debug, PartialEq, Eq)]
pub enum FontType {
    Store(FontStore),
    Family(GenericFamily),
}

/// A font: its family and its size in fixed-point steps.
#[derive(Clone, Debug, PartialEq, Eq)]
pub struct FontInfo {
    pub family: FontType,
    pub size: u32,
}

impl FontInfo {
    /// A copy equal to `self`.
    pub fn copy(&self) -> (r: FontInfo)
        ensures
            r == *self,
    {
        let family = match &self.family {
            FontType::Store(s) => FontType::Store(FontStore(s.0.clone())),
            FontType::Family(f) => FontType::Family(*f),
        };
        FontInfo { family, size: self.size }
    }
}

/// Size of the default font: twelve units.
pub const DEFAULT_FONT_SIZE: u32 = 12000;

impl Default for FontInfo {
    fn default() -> (r: FontInfo)
        ensures
            r.family == FontType::Family(GenericFamily::SansSerif),
            r.size == DEFAULT_FONT_SIZE,
    {
        FontInfo { family: FontType::Family(GenericFamily::SansSerif), size: DEFAULT_FONT_SIZE }
    }
}

/// Name and colour of one series.
#[derive(Clone, Debug, PartialEq, Eq)]
pub struct DatasetMeta {
    pub name: String,
    pub colour: Option<Colour>,
    /// Stroke width of the series' line, in fixed-point steps.
    pub thickness: u32,
}

/// One plotted series.
#[derive(Clone, Debug, PartialEq, Eq)]
pub struct Dataset<T> {
    pub values: Vec<T>,
    pub extra: DatasetMeta,
}

/// What every chart type shares: the series, the label font, the margins
/// around the chart and a caption.
#[derive(Clone, Debug)]
pub struct ChartInfo<Pt> {
    pub datasets: Vec<Dataset<Pt>>,
    pub font: Option<FontInfo>,
    /// Margins in fixed-point steps, each axis falling back to its default.
    pub margins: Option<XY<Option<u32>>>,
    pub caption: Option<String>,
}

/// Default horizontal margin: five units.
pub const DEFAULT_MARGIN_X: u32 = 5000;

/// Default vertical margin: ten units.
pub const DEFAULT_MARGIN_Y: u32 = 10000;

pub open spec fn margin_or(m: Option<u32>, d: u32) -> u32 {
    match m {
        Some(v) => v,
        None => d,
    }
}

impl<Pt> ChartInfo<Pt> {
    /// The margins in effect: those given, each axis defaulting on its own.
    pub open spec fn margins_spec(&self) -> XY<u32> {
        match self.margins {
            Some(m) => XY { x: margin_or(m.x, DEFAULT_MARGIN_X), y: margin_or(m.y, DEFAULT_MARGIN_Y) },
            None => XY { x: DEFAULT_MARGIN_X, y: DEFAULT_MARGIN_Y },
        }
    }

    pub fn margins(&self) -> (r: XY<u32>)
        ensures
            r == self.margins_spec(),
    {
        match &self.margins {
            Some(m) => XY {
                x: match m.x { Some(v) => v, None => DEFAULT_MARGIN_X },
                y: match m.y { Some(v) => v, None => DEFAULT_MARGIN_Y },
            },
            None => XY { x: DEFAULT_MARGIN_X, y: DEFAULT_MARGIN_Y },
        }
    }

    pub open spec fn font_spec(&self) -> FontInfo {
        match self.font {
            Some(f) => f,
            None => FontInfo { family: FontType::Family(GenericFamily::SansSerif), size: DEFAULT_FONT_SIZE },
        }
    }

    /// The label font: the one given, else the default.
    pub fn font(&self) -> (r: FontInfo)
        ensures
            r == self.font_spec(),
    {
        match &self.font {
            Some(f) => f.copy(),
            None => FontInfo::default(),
        }
    }

    /// The caption, empty when none is given.
    pub fn caption(&self) -> (r: String)
        ensures
            self.caption is Some ==> r@ == self.caption->Some_0@,
            self.caption is None ==> r@.len() == 0,
    {
        match &self.caption {
            Some(c) => c.clone(),
            None => String::new(),
        }
    }
}

/// Why a chart could not be laid out.
#[derive(Clone, Debug)]
pub enum Error {
    /// The font family could not be resolved.
    FontLoading(String),
    /// Text could not be set or measured.
    TextBuild(String),
    /// The drawing backend failed.
    Draw(String),
    /// No point to plot.
    EmptyDataset,
    /// Blocks to place (each needing one unit), the width available for
    /// them in fixed-point steps, and what ran short.
    NotEnoughSpace(u128, i128, String),
    /// The series do not fit together.
    InvalidDatasets(String),
}

} // verus!
