//! A minimal SVG document writer: a tree of elements and text rendered to
//! markup.

use vstd::prelude::*;
use vstd::string::*;

use crate::chart::Colour;
use crate::draw::{Alignment, Primitive};
use crate::geom::{Point, UNIT};
use crate::text::{fixed_str, fixed_text, int_str, int_text};

verus! {

broadcast use vstd::std_specs::vec::axiom_vec_index_decreases;

/// A node of the document: an element or raw text.
#[derive(Debug)]
pub enum Node {
    Element(Element),
    Text(String),
}

/// An element: its name, its attributes in order, its children.
#[derive(Debug)]
pub struct Element {
    pub attrs: Vec<(String, String)>,
    pub name: String,
    pub children: Vec<Node>,
}

/// Names and values of attributes, as text.
pub open spec fn attr_views(attrs: Seq<(String, String)>) -> Seq<(Seq<char>, Seq<char>)> {
    attrs.map_values(|a: (String, String)| (a.0@, a.1@))
}

/// ` name="value"`.
pub open spec fn attr_str(a: (String, String)) -> Seq<char> {
    seq![' '] + a.0@ + seq!['=', '"'] + a.1@ + seq!['"']
}

/// The attributes one after the other.
pub open spec fn attrs_str(attrs: Seq<(String, String)>) -> Seq<char>
    decreases attrs.len(),
{
    if attrs.len() == 0 {
        Seq::empty()
    } else {
        attrs_str(attrs.drop_last()) + attr_str(attrs.last())
    }
}

/// Markup of a node.
pub open spec fn node_str(n: Node) -> Seq<char>
    decreases n, 0int,
{
    match n {
        Node::Element(e) => elem_str(e),
        Node::Text(t) => t@,
    }
}

/// `<name attrs/>` for an element without children, else `<name attrs>`,
/// the children one per line, and `</name>`.
pub open spec fn elem_str(e: Element) -> Seq<char>
    decreases e, e.children@.len() + 1,
{
    let head = seq!['<'] + e.name@ + seq![' '] + attrs_str(e.attrs@);
    if e.children@.len() == 0 {
        head + seq!['/', '>']
    } else {
        head + seq!['>', '\n'] + children_str(e, e.children@.len() as int) + seq!['\n', '<', '/']
            + e.name@ + seq!['>']
    }
}

/// The first `k` children of `e`, separated by line breaks.
pub open spec fn children_str(e: Element, k: int) -> Seq<char>
    decreases e, k,
{
    if k <= 0 || k > e.children@.len() {
        Seq::empty()
    } else if k == 1 {
        node_str(e.children@[0])
    } else {
        children_str(e, k - 1) + seq!['\n'] + node_str(e.children@[k - 1])
    }
}

impl Element {
    pub fn new(name: &str) -> (r: Element)
        ensures
            r.name@ == name@,
            r.attrs@.len() == 0,
            r.children@.len() == 0,
    {
        Element { attrs: Vec::new(), name: String::from_str(name), children: Vec::new() }
    }

    /// The element with the attribute `name="value"` added last.
    pub fn attr(self, name: &str, value: &str) -> (r: Element)
        ensures
            r.name == self.name,
            r.children == self.children,
            attr_views(r.attrs@) == attr_views(self.attrs@).push((name@, value@)),
    {
        let mut e = self;
        e.attrs.push((String::from_str(name), String::from_str(value)));
        proof { assert(attr_views(e.attrs@) =~= attr_views(self.attrs@).push((name@, value@))); }
        e
    }

    /// The element with the attribute added when there is a value.
    pub fn maybe_attr(self, name: &str, value: Option<&str>) -> (r: Element)
        ensures
            r.name == self.name,
            r.children == self.children,
            attr_views(r.attrs@) == match value {
                Some(v) => attr_views(self.attrs@).push((name@, v@)),
                None => attr_views(self.attrs@),
            },
    {
        match value {
            Some(v) => self.attr(name, v),
            None => self,
        }
    }

    /// The element with `c` added as its last child.
    pub fn child(self, c: Node) -> (r: Element)
        ensures
            r.name == self.name,
            r.attrs == self.attrs,
            r.children@ == self.children@.push(c),
    {
        let mut e = self;
        e.children.push(c);
        e
    }

    /// The element's markup (see `elem_str`).
    pub fn to_string(&self) -> (r: String)
        ensures
            r@ == elem_str(*self),
        decreases self, self.children@.len() + 1,
    {
        let mut out = String::new();
        proof {
            reveal_strlit("<");
            reveal_strlit(" ");
            reveal_strlit("=\"");
            reveal_strlit("\"");
            reveal_strlit("/>");
            reveal_strlit(">\n");
            reveal_strlit("\n");
            reveal_strlit("\n</");
            reveal_strlit(">");
        }
        out.append("<");
        out.append(self.name.as_str());
        out.append(" ");
        let mut i: usize = 0;
        while i < self.attrs.len()
            invariant
                i <= self.attrs@.len(),
                out@ == seq!['<'] + self.name@ + seq![' '] + attrs_str(self.attrs@.take(i as int)),
            decreases self.attrs@.len() - i,
        {
            let a = &self.attrs[i];
            out.append(" ");
            out.append(a.0.as_str());
            out.append("=\"");
            out.append(a.1.as_str());
            out.append("\"");
            proof {
                assert(self.attrs@.take(i as int + 1).drop_last() =~= self.attrs@.take(i as int));
                assert(self.attrs@.take(i as int + 1).last() == self.attrs@[i as int]);
                reveal_strlit(" ");
                reveal_strlit("=\"");
                reveal_strlit("\"");
                assert(" "@ =~= seq![' ']);
                assert("=\""@ =~= seq!['=', '"']);
                assert("\""@ =~= seq!['"']);
                assert(out@ =~= seq!['<'] + self.name@ + seq![' '] + attrs_str(self.attrs@.take(i as int + 1)));
            }
            i = i + 1;
        }
        proof { assert(self.attrs@.take(i as int) =~= self.attrs@); }
        let ghost head = out@;
        if self.children.len() == 0 {
            out.append("/>");
            proof { assert(out@ =~= elem_str(*self)); }
        } else {
            out.append(">\n");
            let mut k: usize = 0;
            while k < self.children.len()
                invariant
                    k <= self.children@.len(),
                    self.children@.len() > 0,
                    out@ == head + seq!['>', '\n'] + children_str(*self, k as int),
                decreases self.children@.len() - k,
            {
                if k > 0 {
                    out.append("\n");
                }
                let s = self.children[k].to_string();
                out.append(s.as_str());
                proof {
                    reveal_strlit("\n");
                    assert("\n"@ =~= seq!['\n']);
                    assert(s@ == node_str(self.children@[k as int]));
                    assert(out@ =~= head + seq!['>', '\n'] + children_str(*self, k as int + 1));
                }
                k = k + 1;
            }
            out.append("\n</");
            out.append(self.name.as_str());
            out.append(">");
            proof { assert(out@ =~= elem_str(*self)); }
        }
        out
    }
}

impl Node {
    /// The node's markup (see `node_str`).
    pub fn to_string(&self) -> (r: String)
        ensures
            r@ == node_str(*self),
        decreases self, 0int,
    {
        match self {
            Node::Element(e) => e.to_string(),
            Node::Text(t) => t.clone(),
        }
    }
}

/// A document: its top-level nodes and its size in units.
#[derive(Debug)]
pub struct Doc {
    pub nodes: Vec<Node>,
    pub width: u32,
    pub height: u32,
}

/// The first `k` nodes, separated by line breaks.
pub open spec fn nodes_str(ns: Seq<Node>, k: int) -> Seq<char>
    decreases k,
{
    if k <= 0 {
        Seq::empty()
    } else if k == 1 {
        node_str(ns[0])
    } else {
        nodes_str(ns, k - 1) + seq!['\n'] + node_str(ns[k - 1])
    }
}

/// The document as an `svg` element holding its nodes; a standalone
/// document starts with the XML declaration and gives its size.
pub open spec fn doc_str(d: Doc, standalone: bool) -> Seq<char> {
    let decl = if standalone { XML_DECL@ } else { Seq::empty() };
    let size = if standalone {
        seq![' '] + WIDTH_ATTR@ + crate::text::nat_str(d.width as nat) + seq!['"', ' ']
            + HEIGHT_ATTR@ + crate::text::nat_str(d.height as nat) + seq!['"']
    } else {
        Seq::empty()
    };
    let head = seq!['<', 's', 'v', 'g', ' '] + size;
    if d.nodes@.len() == 0 {
        decl + head + seq!['/', '>']
    } else {
        decl + head + seq!['>', '\n'] + nodes_str(d.nodes@, d.nodes@.len() as int) + seq![
            '\n',
            '<',
            '/',
            's',
            'v',
            'g',
            '>',
        ]
    }
}

pub const XML_DECL: &'static str = "<?xml version=\"1.0\" standalone=\"no\"?>\n";

pub const WIDTH_ATTR: &'static str = "width=\"";

pub const HEIGHT_ATTR: &'static str = "height=\"";

impl Doc {
    pub fn new(width: u32, height: u32) -> (r: Doc)
        ensures
            r.nodes@.len() == 0,
            r.width == width,
            r.height == height,
    {
        Doc { nodes: Vec::new(), width, height }
    }

    pub fn add_node(&mut self, n: Node)
        ensures
            final(self).nodes@ == old(self).nodes@.push(n),
            final(self).width == old(self).width,
            final(self).height == old(self).height,
    {
        self.nodes.push(n);
    }

    /// The document's markup (see `doc_str`).
    pub fn render(&self, standalone: bool) -> (r: String)
        ensures
            r@ == doc_str(*self, standalone),
    {
        let mut out = String::new();
        if standalone {
            out.append(XML_DECL);
        }
        proof {
            reveal_strlit("<svg ");
            reveal_strlit(" ");
            reveal_strlit("\" ");
            reveal_strlit("\"");
            reveal_strlit("/>");
            reveal_strlit(">\n");
            reveal_strlit("\n</svg>");
        }
        out.append("<svg ");
        if standalone {
            out.append(" ");
            out.append(WIDTH_ATTR);
            crate::text::push_nat(&mut out, self.width as u64);
            out.append("\" ");
            out.append(HEIGHT_ATTR);
            crate::text::push_nat(&mut out, self.height as u64);
            out.append("\"");
        }
        let ghost head = out@;
        if self.nodes.len() == 0 {
            out.append("/>");
        } else {
            out.append(">\n");
            let mut k: usize = 0;
            while k < self.nodes.len()
                invariant
                    k <= self.nodes@.len(),
                    out@ == head + seq!['>', '\n'] + nodes_str(self.nodes@, k as int),
                decreases self.nodes@.len() - k,
            {
                if k > 0 {
                    proof { reveal_strlit("\n"); }
                    out.append("\n");
                }
                let s = self.nodes[k].to_string();
                out.append(s.as_str());
                proof {
                    reveal_strlit("\n");
                    assert(out@ =~= head + seq!['>', '\n'] + nodes_str(self.nodes@, k as int + 1));
                }
                k = k + 1;
            }
            out.append("\n</svg>");
        }
        proof { assert(out@ =~= doc_str(*self, standalone)); }
        out
    }

    /// The standalone document.
    pub fn to_string(&self) -> (r: String)
        ensures
            r@ == doc_str(*self, true),
    {
        self.render(true)
    }
}

pub fn path() -> (r: Element)
    ensures
        r.name@ == "path"@,
        r.attrs@.len() == 0,
        r.children@.len() == 0,
{
    Element::new("path")
}

pub fn line() -> (r: Element)
    ensures
        r.name@ == "line"@,
        r.attrs@.len() == 0,
        r.children@.len() == 0,
{
    Element::new("line")
}

pub fn rect() -> (r: Element)
    ensures
        r.name@ == "rect"@,
        r.attrs@.len() == 0,
        r.children@.len() == 0,
{
    Element::new("rect")
}

pub fn group() -> (r: Element)
    ensures
        r.name@ == "g"@,
        r.attrs@.len() == 0,
        r.children@.len() == 0,
{
    Element::new("g")
}

pub fn text() -> (r: Element)
    ensures
        r.name@ == "text"@,
        r.attrs@.len() == 0,
        r.children@.len() == 0,
{
    Element::new("text")
}

/// `rgb(r,g,b)`.
pub open spec fn colour_str(c: Colour) -> Seq<char> {
    "rgb("@ + int_str(c.r as int) + ","@ + int_str(c.g as int) + ","@ + int_str(c.b as int) + ")"@
}

pub fn colour_text(c: Colour) -> (r: String)
    ensures
        r@ == colour_str(c),
{
    let mut out = String::from_str("rgb(");
    out.append(int_text(c.r as i64).as_str());
    out.append(",");
    out.append(int_text(c.g as i64).as_str());
    out.append(",");
    out.append(int_text(c.b as i64).as_str());
    out.append(")");
    proof { assert(out@ =~= colour_str(c)); }
    out
}

/// A paint attribute with the colour, then its opacity when not opaque.
pub open spec fn paint_attrs(attr: Seq<char>, c: Colour) -> Seq<(Seq<char>, Seq<char>)> {
    seq![(attr, colour_str(c))] + if c.a < 255 {
        seq![("opacity"@, fixed_str(c.a * UNIT / 255))]
    } else {
        Seq::empty()
    }
}

fn paint(e: Element, attr: &str, c: Colour) -> (r: Element)
    ensures
        r.name == e.name,
        r.children == e.children,
        attr_views(r.attrs@) == attr_views(e.attrs@) + paint_attrs(attr@, c),
{
    let e0 = e;
    let ghost before = attr_views(e0.attrs@);
    let e = e0.attr(attr, colour_text(c).as_str());
    if c.a < 255 {
        let o = (c.a as i64) * UNIT / 255;
        let r = e.attr("opacity", fixed_text(o).as_str());
        proof { assert(attr_views(r.attrs@) =~= before + paint_attrs(attr@, c)); }
        r
    } else {
        proof { assert(attr_views(e.attrs@) =~= before + paint_attrs(attr@, c)); }
        e
    }
}

/// `hi - lo`, or 0 when that does not fit in an `i64`.
pub open spec fn extent_spec(lo: i64, hi: i64) -> int {
    if i64::MIN <= hi - lo <= i64::MAX { hi - lo } else { 0 }
}

fn extent(lo: i64, hi: i64) -> (r: i64)
    ensures
        r == extent_spec(lo, hi),
{
    match hi.checked_sub(lo) {
        Some(d) => d,
        None => 0,
    }
}

/// Path data through `ps`: `M x y`, then ` L x y` for each further point.
pub open spec fn path_data(ps: Seq<Point>) -> Seq<char>
    decreases ps.len(),
{
    if ps.len() == 0 {
        Seq::empty()
    } else {
        path_data(ps.drop_last()) + (if ps.len() == 1 { "M "@ } else { " L "@ }) + fixed_str(
            ps.last().x as int,
        ) + " "@ + fixed_str(ps.last().y as int)
    }
}

/// `text-anchor` of an alignment.
pub open spec fn anchor_str(a: Alignment) -> Seq<char> {
    match a {
        Alignment::Start => "start"@,
        Alignment::Center => "middle"@,
        Alignment::End => "end"@,
    }
}

/// A rotation by `deg` degrees about `p`.
pub open spec fn rotate_str(deg: i64, p: Point) -> Seq<char> {
    "rotate("@ + int_str(deg as int) + " "@ + fixed_str(p.x as int) + " "@ + fixed_str(p.y as int)
        + ")"@
}

/// The SVG tag that draws a primitive.
pub open spec fn tag_of(p: Primitive) -> Seq<char> {
    match p {
        Primitive::Line { .. } => "line"@,
        Primitive::FilledRect { .. } => "rect"@,
        Primitive::Dot { .. } => "circle"@,
        Primitive::StrokedPath { .. } => "path"@,
        Primitive::Text { .. } => "text"@,
    }
}

/// The attributes of the element that draws a primitive, in units.
pub open spec fn svg_attrs(p: Primitive) -> Seq<(Seq<char>, Seq<char>)> {
    match p {
        Primitive::Line { line, colour, width } => seq![
            ("x1"@, fixed_str(line.p0.x as int)),
            ("y1"@, fixed_str(line.p0.y as int)),
            ("x2"@, fixed_str(line.p1.x as int)),
            ("y2"@, fixed_str(line.p1.y as int)),
            ("stroke-width"@, fixed_str(width as int)),
        ] + paint_attrs("stroke"@, colour),
        Primitive::FilledRect { rect, colour } => seq![
            ("x"@, fixed_str(rect.x0 as int)),
            ("y"@, fixed_str(rect.y0 as int)),
            ("width"@, fixed_str(extent_spec(rect.x0, rect.x1))),
            ("height"@, fixed_str(extent_spec(rect.y0, rect.y1))),
        ] + paint_attrs("fill"@, colour),
        Primitive::Dot { center, radius, colour } => seq![
            ("cx"@, fixed_str(center.x as int)),
            ("cy"@, fixed_str(center.y as int)),
            ("r"@, fixed_str(radius as int)),
        ] + paint_attrs("fill"@, colour),
        Primitive::StrokedPath { points, colour, thickness } => seq![
            ("d"@, path_data(points@)),
            ("fill"@, "none"@),
            ("stroke-width"@, fixed_str(thickness as int)),
        ] + paint_attrs("stroke"@, colour),
        Primitive::Text { pos, content, align, rotation, font } => seq![
            ("x"@, fixed_str(pos.x as int)),
            ("y"@, fixed_str(pos.y as int)),
            ("text-anchor"@, anchor_str(align)),
            ("font-size"@, fixed_str(font.size as int)),
        ] + if rotation != 0 {
            seq![("transform"@, rotate_str(rotation, pos))]
        } else {
            Seq::empty()
        },
    }
}

fn path_text(points: &Vec<Point>) -> (r: String)
    ensures
        r@ == path_data(points@),
{
    let mut d = String::new();
    let mut i: usize = 0;
    while i < points.len()
        invariant
            i <= points@.len(),
            d@ == path_data(points@.take(i as int)),
        decreases points@.len() - i,
    {
        if i == 0 {
            d.append("M ");
        } else {
            d.append(" L ");
        }
        d.append(fixed_text(points[i].x).as_str());
        d.append(" ");
        d.append(fixed_text(points[i].y).as_str());
        proof {
            assert(points@.take(i as int + 1).drop_last() =~= points@.take(i as int));
            assert(d@ =~= path_data(points@.take(i as int + 1)));
        }
        i = i + 1;
    }
    proof { assert(points@.take(i as int) =~= points@); }
    d
}

/// The element that draws `p`: its tag, its attributes in units, and for a
/// text its content as the one child.
pub fn to_svg(p: &Primitive) -> (r: Node)
    ensures
        r is Element,
        r->Element_0.name@ == tag_of(*p),
        attr_views(r->Element_0.attrs@) == svg_attrs(*p),
        p is Text ==> r->Element_0.children@.len() == 1 && r->Element_0.children@[0] is Text
            && r->Element_0.children@[0]->Text_0@ == p->Text_content@,
        !(p is Text) ==> r->Element_0.children@.len() == 0,
{
    match p {
        Primitive::Line { line: l, colour, width } => {
            let e = line()
                .attr("x1", fixed_text(l.p0.x).as_str())
                .attr("y1", fixed_text(l.p0.y).as_str())
                .attr("x2", fixed_text(l.p1.x).as_str())
                .attr("y2", fixed_text(l.p1.y).as_str())
                .attr("stroke-width", fixed_text(*width as i64).as_str());
            let e = paint(e, "stroke", *colour);
            proof { assert(attr_views(e.attrs@) =~= svg_attrs(*p)); }
            Node::Element(e)
        },
        Primitive::FilledRect { rect: r, colour } => {
            let e = rect()
                .attr("x", fixed_text(r.x0).as_str())
                .attr("y", fixed_text(r.y0).as_str())
                .attr("width", fixed_text(extent(r.x0, r.x1)).as_str())
                .attr("height", fixed_text(extent(r.y0, r.y1)).as_str());
            let e = paint(e, "fill", *colour);
            proof { assert(attr_views(e.attrs@) =~= svg_attrs(*p)); }
            Node::Element(e)
        },
        Primitive::Dot { center, radius, colour } => {
            let e = Element::new("circle")
                .attr("cx", fixed_text(center.x).as_str())
                .attr("cy", fixed_text(center.y).as_str())
                .attr("r", fixed_text(*radius).as_str());
            let e = paint(e, "fill", *colour);
            proof { assert(attr_views(e.attrs@) =~= svg_attrs(*p)); }
            Node::Element(e)
        },
        Primitive::StrokedPath { points, colour, thickness } => {
            let e = path()
                .attr("d", path_text(points).as_str())
                .attr("fill", "none")
                .attr("stroke-width", fixed_text(*thickness as i64).as_str());
            let e = paint(e, "stroke", *colour);
            proof { assert(attr_views(e.attrs@) =~= svg_attrs(*p)); }
            Node::Element(e)
        },
        Primitive::Text { pos, content, align, rotation, font } => {
            let anchor = match align {
                Alignment::Start => "start",
                Alignment::Center => "middle",
                Alignment::End => "end",
            };
            let mut tr = String::from_str("rotate(");
            tr.append(int_text(*rotation).as_str());
            tr.append(" ");
            tr.append(fixed_text(pos.x).as_str());
            tr.append(" ");
            tr.append(fixed_text(pos.y).as_str());
            tr.append(")");
            proof { assert(tr@ =~= rotate_str(*rotation, *pos)); }
            let e = text()
                .attr("x", fixed_text(pos.x).as_str())
                .attr("y", fixed_text(pos.y).as_str())
                .attr("text-anchor", anchor)
                .attr("font-size", fixed_text(font.size as i64).as_str())
                .maybe_attr("transform", if *rotation != 0 { Some(tr.as_str()) } else { None });
            proof { assert(attr_views(e.attrs@) =~= svg_attrs(*p)); }
            let e = e.child(Node::Text(content.clone()));
            Node::Element(e)
        },
    }
}

/// An SVG drawing being built.
#[derive(Debug)]
pub struct Svg {
    pub doc: Doc,
}

impl Svg {
    pub fn new(width: u32, height: u32) -> (r: Svg)
        ensures
            r.doc.nodes@.len() == 0,
            r.doc.width == width,
            r.doc.height == height,
    {
        Svg { doc: Doc::new(width, height) }
    }

    /// Adds the element that draws `p`.
    pub fn draw(&mut self, p: &Primitive)
        ensures
            final(self).doc.nodes@.len() == old(self).doc.nodes@.len() + 1,
            final(self).doc.nodes@.drop_last() == old(self).doc.nodes@,
            final(self).doc.nodes@.last() is Element,
            final(self).doc.nodes@.last()->Element_0.name@ == tag_of(*p),
            attr_views(final(self).doc.nodes@.last()->Element_0.attrs@) == svg_attrs(*p),
            p is Text ==> final(self).doc.nodes@.last()->Element_0.children@.len() == 1
                && final(self).doc.nodes@.last()->Element_0.children@[0] is Text
                && final(self).doc.nodes@.last()->Element_0.children@[0]->Text_0@
                == p->Text_content@,
            !(p is Text) ==> final(self).doc.nodes@.last()->Element_0.children@.len() == 0,
            final(self).doc.width == old(self).doc.width,
            final(self).doc.height == old(self).doc.height,
    {
        let n = to_svg(p);
        self.doc.add_node(n);
        proof { assert(self.doc.nodes@.drop_last() =~= old(self).doc.nodes@); }
    }

    /// The standalone document.
    pub fn dump(&self) -> (r: String)
        ensures
            r@ == doc_str(self.doc, true),
    {
        self.doc.to_string()
    }
}

} // verus!
