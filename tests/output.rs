use chartkit::bar::BarChart;
use chartkit::chart::{ChartInfo, Colour, Dataset, DatasetMeta, Error, FontInfo, XY};
use chartkit::charts::{Chart, Charts};
use chartkit::draw::{checked_size, Measure, Primitive};
use chartkit::format::{InputFormat, OutputFormat};
use chartkit::geom::{Point, Rect, Size, UNIT};
use chartkit::scatter::XYScatter;
use chartkit::svg::{to_svg, Doc, Element, Node, Svg};
use chartkit::text::{fixed_text, int_text};

fn u(v: i64) -> i64 {
    v * UNIT
}

/// Every character half a unit wide per point of font size, one size tall.
struct Mono;

impl Measure for Mono {
    fn text_size(&mut self, text: &str, font: &FontInfo) -> Result<Size, Error> {
        let n = text.chars().count() as i64;
        Ok(Size::new(n * font.size as i64 / 2, font.size as i64))
    }
}

struct NoFonts;

impl Measure for NoFonts {
    fn text_size(&mut self, _text: &str, _font: &FontInfo) -> Result<Size, Error> {
        Err(Error::FontLoading("missing".to_owned()))
    }
}

fn meta(name: &str) -> DatasetMeta {
    DatasetMeta { name: name.to_owned(), colour: None, thickness: 1000 }
}

fn info<T>(values: Vec<Vec<T>>) -> ChartInfo<T> {
    ChartInfo {
        datasets: values
            .into_iter()
            .enumerate()
            .map(|(i, v)| Dataset { values: v, extra: meta(&format!("set{}", i)) })
            .collect(),
        font: None,
        margins: None,
        caption: None,
    }
}

#[test]
fn add_el_to_node() {
    let mut d = Doc::new(10, 10);
    d.add_node(Node::Element(Element::new("e")));
    let expected = r#"<svg >
<e />
</svg>"#
        .to_owned();
    assert_eq!(d.render(false), expected);
}

#[test]
fn standalone_document_has_size() {
    let mut d = Doc::new(600, 400);
    d.add_node(Node::Element(Element::new("g").attr("id", "a").child(Node::Text("t".to_owned()))));
    assert_eq!(
        d.to_string(),
        "<?xml version=\"1.0\" standalone=\"no\"?>\n<svg  width=\"600\" height=\"400\">\n<g  id=\"a\">\nt\n</g>\n</svg>"
    );
    assert_eq!(Doc::new(1, 2).render(false), "<svg />");
}

#[test]
fn element_attributes() {
    let e = Element::new("rect").attr("x", "1").maybe_attr("y", None).maybe_attr("w", Some("3"));
    assert_eq!(e.to_string(), "<rect  x=\"1\" w=\"3\"/>");
}

#[test]
fn svg_of_primitives() {
    let line = Primitive::Line {
        line: chartkit::geom::Line::new(Point::new(0, 1500), Point::new(u(2), u(3))),
        colour: Colour::rgba(1, 2, 3, 255),
        width: 1000,
    };
    match to_svg(&line) {
        Node::Element(e) => assert_eq!(
            e.to_string(),
            "<line  x1=\"0\" y1=\"1.500\" x2=\"2\" y2=\"3\" stroke-width=\"1\" stroke=\"rgb(1,2,3)\"/>"
        ),
        Node::Text(_) => panic!("expected an element"),
    }
    let mut svg = Svg::new(10, 10);
    svg.draw(&Primitive::Text {
        pos: Point::new(u(1), u(2)),
        content: "hi".to_owned(),
        align: chartkit::draw::Alignment::End,
        rotation: 0,
        font: FontInfo::default(),
    });
    assert!(svg.dump().contains(">\nhi\n</text>"));
}

#[test]
fn decimal_text() {
    assert_eq!(int_text(0), "0");
    assert_eq!(int_text(-407), "-407");
    assert_eq!(int_text(i64::MIN), "-9223372036854775808");
    assert_eq!(fixed_text(12000), "12");
    assert_eq!(fixed_text(2500), "2.500");
    assert_eq!(fixed_text(-1005), "-1.005");
}

#[test]
fn formats_from_paths() {
    assert_eq!(InputFormat::from_path("charts/a.yaml"), Some(InputFormat::Yaml));
    assert_eq!(InputFormat::from_path("a.yml"), Some(InputFormat::Yaml));
    assert_eq!(InputFormat::from_path("dir.v2/a.lua"), Some(InputFormat::Lua));
    assert_eq!(InputFormat::from_path("a.txt"), None);
    assert_eq!(InputFormat::from_path("yaml"), None);
    assert_eq!(OutputFormat::from_path("out/plot.svg"), Some(OutputFormat::Svg));
    assert_eq!(OutputFormat::from_path("plot.pdf"), Some(OutputFormat::Pdf));
    assert_eq!(OutputFormat::from_path("plot"), None);
    assert_eq!(OutputFormat::Png.extension(), "png");
}

#[test]
fn chart_info_defaults() {
    let i = info::<i64>(vec![]);
    let m = i.margins();
    assert_eq!((m.x, m.y), (5000, 10000));
    let mut j = info::<i64>(vec![]);
    j.margins = Some(XY::new(Some(7), None));
    let m = j.margins();
    assert_eq!((m.x, m.y), (7, 10000));
    assert_eq!(i.caption(), "");
    assert_eq!(i.font(), FontInfo::default());
    let p = XY::new(2, 3).map(|v| v * 10);
    assert_eq!((p.x, p.y), (20, 30));
}

#[test]
fn bar_chart_renders_with_legend() {
    let mut bar = BarChart::new();
    bar.categories = vec!["a".to_owned(), "b".to_owned()];
    let chart = Charts::Bar(Chart { extra: bar, info: info(vec![vec![u(1), u(4)], vec![u(2), u(3)]]) });
    let area = Rect::new(0, 0, u(300), u(200));
    let out = chart.render(&area, &mut Mono).unwrap();
    let texts: Vec<String> = out
        .iter()
        .filter_map(|p| match p {
            Primitive::Text { content, .. } => Some(content.clone()),
            _ => None,
        })
        .collect();
    assert!(texts.contains(&"set0".to_owned()));
    assert!(texts.contains(&"set1".to_owned()));
    assert!(texts.contains(&"a".to_owned()));
    let inner = Rect::new(u(5), u(10), u(295), u(190));
    for p in &out {
        if let Primitive::FilledRect { rect, .. } = p {
            assert_eq!(inner.union(rect), inner, "{:?}", rect);
        }
    }
}

#[test]
fn scatter_chart_renders() {
    let sc = XYScatter {
        axis: XY::new("x".to_owned(), "y".to_owned()),
        steps: XY::new(50u32, 50u32),
        grid: None,
        margin: None,
    };
    let chart = Charts::XYScatter(Chart {
        extra: sc,
        info: info(vec![vec![XY::new(0, 0), XY::new(u(10), u(20))]]),
    });
    let area = Rect::new(0, 0, u(600), u(400));
    let out = chart.render(&area, &mut Mono).unwrap();
    let paths = out.iter().filter(|p| matches!(p, Primitive::StrokedPath { .. })).count();
    assert_eq!(paths, 2);
    assert!(matches!(chart.render(&area, &mut NoFonts), Err(Error::FontLoading(_))));
    let tiny = Rect::new(0, 0, u(4), u(4));
    assert!(matches!(chart.render(&tiny, &mut Mono), Err(Error::NotEnoughSpace(_, _, _))));
}

/// Reports a size no layout can use.
struct Broken;

impl Measure for Broken {
    fn text_size(&mut self, _text: &str, _font: &FontInfo) -> Result<Size, Error> {
        Ok(Size::new(-1, 0))
    }
}

#[test]
fn unusable_text_size_is_an_error() {
    let mut bar = BarChart::new();
    bar.categories = vec!["a".to_owned()];
    let chart = Chart { extra: bar, info: info(vec![vec![u(1)]]) };
    let area = Rect::new(0, 0, u(300), u(200));
    assert!(matches!(chart.render(&area, &mut Broken), Err(Error::TextBuild(_))));
}

#[test]
fn legend_rows_stack_down_from_upper_right() {
    let mut bar = BarChart::new();
    bar.categories = vec!["a".to_owned()];
    bar.lines = Some(false);
    let mut i = info(vec![vec![u(1)], vec![u(2)]]);
    i.margins = Some(XY::new(Some(0), Some(0)));
    let chart = Chart { extra: bar, info: i };
    let area = Rect::new(0, 0, u(200), u(100));
    let out = chart.render(&area, &mut Mono).unwrap();
    // the last six primitives are the legend: swatch, dot, name per series
    let legend = &out[out.len() - 6..];
    let font = FontInfo::default().size as i64;
    let name_w = 4 * font / 2;
    let left = u(200) - u(20) - (name_w + font + 4000);
    match (&legend[0], &legend[3]) {
        (Primitive::FilledRect { rect: a, colour: ca }, Primitive::FilledRect { rect: b, .. }) => {
            assert_eq!(*a, Rect::new(left, u(10), left + font, u(10) + font));
            assert_eq!(*b, Rect::new(left, u(10) + font, left + font, u(10) + 2 * font));
            assert_eq!(ca.a, 128);
        }
        other => panic!("unexpected legend {:?}", other),
    }
    match &legend[2] {
        Primitive::Text { content, .. } => assert_eq!(content, "set0"),
        other => panic!("unexpected legend text {:?}", other),
    }
}

#[test]
fn step_label_text() {
    assert_eq!(chartkit::steps::StepLabel::new(u(20), 0).label(), "20");
    assert_eq!(chartkit::steps::StepLabel::new(-500, 0).label(), "-0.500");
}

#[test]
fn rendering_twice_gives_the_same_drawing() {
    let sc = XYScatter {
        axis: XY::new("x".to_owned(), "y".to_owned()),
        steps: XY::new(25u32, 25u32),
        grid: Some(XY::new(true, true)),
        margin: None,
    };
    let chart = Charts::XYScatter(Chart {
        extra: sc,
        info: info(vec![vec![XY::new(u(1), u(3)), XY::new(u(2), u(1))], vec![XY::new(u(5), u(5))]]),
    });
    let area = Rect::new(0, 0, u(500), u(300));
    let first = chart.render(&area, &mut Mono).unwrap();
    let second = chart.render(&area, &mut Mono).unwrap();
    assert_eq!(format!("{:?}", first), format!("{:?}", second));
}

#[test]
fn palette_skips_series_with_their_own_colour() {
    let own = Colour::rgba(1, 2, 3, 255);
    let mut i = info(vec![vec![u(1)], vec![u(2)], vec![u(3)]]);
    i.datasets[0].extra.colour = Some(own);
    let colours = chartkit::chart::series_colours(&i.datasets);
    assert_eq!(colours[0], own);
    assert_eq!(colours[1], chartkit::chart::palette_colour(0));
    assert_eq!(colours[2], chartkit::chart::palette_colour(1));
    let mut bar = BarChart::new();
    bar.categories = vec!["a".to_owned()];
    let out = bar.layout(&i.datasets, Rect::new(0, 0, u(300), u(200)), &FontInfo::default(), 0).unwrap();
    let fills: Vec<Colour> = out
        .iter()
        .filter_map(|p| match p {
            Primitive::FilledRect { colour, .. } => Some(*colour),
            _ => None,
        })
        .collect();
    assert_eq!(fills, colours);
}

#[test]
fn scatter_render_checks_series_first() {
    let sc = XYScatter {
        axis: XY::new("x".to_owned(), "y".to_owned()),
        steps: XY::new(50u32, 50u32),
        grid: None,
        margin: None,
    };
    let area = Rect::new(0, 0, u(600), u(400));
    let empty = info::<XY<i64>>(vec![vec![]]);
    assert!(matches!(sc.render_scatter(&empty, area, &mut NoFonts), Err(Error::EmptyDataset)));
    let negative = info(vec![vec![XY::new(-1, 0)]]);
    assert!(matches!(sc.render_scatter(&negative, area, &mut NoFonts), Err(Error::InvalidDatasets(_))));
}

#[test]
fn plot_area_from_character_size() {
    let sc = XYScatter {
        axis: XY::new("x".to_owned(), "y".to_owned()),
        steps: XY::new(10u32, 10u32),
        grid: None,
        margin: None,
    };
    let area = Rect::new(0, 0, u(600), u(400));
    // x0 = 12 + 4 * 6 + 24, y0 = 30, x1 = 600 - 24, y1 = 400 - 36 - 30,
    // then rounded up to steps of ten from the left and bottom edges
    let plot = sc.plot_rect(area, Size::new(u(6), u(12))).unwrap();
    assert_eq!(plot, Rect::new(u(60), u(24), u(580), u(334)));
    assert!(matches!(sc.plot_rect(area, Size::new(u(140), u(12))), Err(Error::NotEnoughSpace(_, _, _))));
}

#[test]
fn caption_is_centred_in_top_margin() {
    let mut bar = BarChart::new();
    bar.categories = vec!["a".to_owned()];
    let mut i = info(vec![vec![u(1)]]);
    i.caption = Some("Title".to_owned());
    let chart = Chart { extra: bar, info: i };
    let out = chart.render(&Rect::new(0, 0, u(300), u(200)), &mut Mono).unwrap();
    match out.last() {
        Some(Primitive::Text { pos, content, .. }) => {
            assert_eq!(content, "Title");
            assert_eq!(*pos, Point::new(u(150), u(5)));
        }
        other => panic!("expected the caption last, got {:?}", other),
    }
}

#[test]
fn chart_type_errors_pass_through_before_measuring() {
    let mut bar = BarChart::new();
    bar.categories = vec!["a".to_owned(), "b".to_owned()];
    let chart = Chart { extra: bar, info: info(vec![vec![u(1)]]) };
    let area = Rect::new(0, 0, u(300), u(200));
    assert!(matches!(chart.render(&area, &mut NoFonts), Err(Error::InvalidDatasets(_))));
    let empty = Chart { extra: BarChart::new(), info: info::<i64>(vec![]) };
    assert!(matches!(empty.render(&area, &mut NoFonts), Err(Error::EmptyDataset)));
}

#[test]
fn measured_sizes_are_checked() {
    assert_eq!(checked_size(Ok(Size::new(3, 4))).unwrap(), Size::new(3, 4));
    assert!(matches!(checked_size(Ok(Size::new(3, -4))), Err(Error::TextBuild(_))));
    assert!(matches!(checked_size(Err(Error::FontLoading("f".to_owned()))), Err(Error::FontLoading(_))));
}
