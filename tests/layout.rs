use chartkit::bar::{BarChart, DrawingInfo};
use chartkit::chart::{Dataset, DatasetMeta, Error, FontInfo, XY};
use chartkit::geom::{Line, Point, Rect, UNIT};
use chartkit::grid::mk_grids;
use chartkit::round::RoundMul;
use chartkit::scatter::{XYPoint, XYScatter};
use chartkit::steps::{decide_steps, step_adjust, StepLabel};

fn u(v: i64) -> i64 {
    v * UNIT
}

fn to_dataset<T: Clone>(vs: &Vec<Vec<T>>) -> Vec<Dataset<T>> {
    vs.iter()
        .map(|p| Dataset {
            values: p.clone(),
            extra: DatasetMeta { name: "testpt".to_owned(), colour: None, thickness: 0 },
        })
        .collect()
}

#[test]
fn test_ceil_mul() {
    let muls: Vec<i64> = vec![10, -10, 5, 1];
    let inputs: Vec<i64> = vec![9, -13, 12, 10];
    let expected: Vec<i64> = vec![10, -20, 15, 10];
    for i in 0..expected.len() {
        assert_eq!(
            inputs[i].ceil_mul(muls[i]),
            expected[i],
            "({} -> {}) should be {}",
            inputs[i],
            muls[i],
            expected[i]
        );
    }
}

#[test]
fn floor_mul_rounds_down() {
    assert_eq!(9i64.floor_mul(10), 0);
    assert_eq!((-13i64).floor_mul(10), -20);
    assert_eq!(12i64.floor_mul(5), 10);
    assert_eq!(10i64.floor_mul(1), 10);
    assert_eq!((-13i64).floor_mul(-10), -10);
}

#[test]
fn rounding_brackets_value() {
    for x in -25i64..25 {
        for s in 1i64..7 {
            let lo = x.floor_mul(s);
            let hi = x.ceil_mul(s);
            assert!(lo <= x && x <= hi);
            assert_eq!(lo % s, 0);
            assert_eq!(hi % s, 0);
            assert!(hi - lo < 2 * s);
        }
    }
}

#[test]
fn test_decide_steps() {
    let inputs = vec![(u(100), 0, u(500), 100u32), (u(500), 0, u(100), 20u32)];
    let expected = vec![
        vec![
            StepLabel::new(0, 0),
            StepLabel::new(u(100), u(20)),
            StepLabel::new(u(200), u(40)),
            StepLabel::new(u(300), u(60)),
            StepLabel::new(u(400), u(80)),
            StepLabel::new(u(500), u(100)),
        ],
        vec![
            StepLabel::new(0, 0),
            StepLabel::new(u(20), u(100)),
            StepLabel::new(u(40), u(200)),
            StepLabel::new(u(60), u(300)),
            StepLabel::new(u(80), u(400)),
            StepLabel::new(u(100), u(500)),
        ],
    ];
    for i in 0..inputs.len() {
        let (len, min_val, max_val, min_gap) = inputs[i];
        let output = decide_steps(len, min_val, max_val, min_gap);
        for v in &expected[i] {
            assert!(output.contains(v), "{:?} contains {:?}", output, v);
        }
    }
}

#[test]
fn steps_cover_rounded_range() {
    let out = decide_steps(u(90), u(3), u(47), 10);
    let values: Vec<i64> = out.iter().map(|s| s.value).collect();
    assert_eq!(values, vec![0, u(10), u(20), u(30), u(40), u(50)]);
    let offsets: Vec<i64> = out.iter().map(|s| s.offset).collect();
    assert_eq!(offsets, vec![0, u(18), u(36), u(54), u(72), u(90)]);
    let neg = decide_steps(u(10), u(-7), u(2), 5);
    let values: Vec<i64> = neg.iter().map(|s| s.value).collect();
    assert_eq!(values, vec![u(-10), u(-5), 0, u(5)]);
    for s in &neg {
        assert!(0 <= s.offset && s.offset <= u(10));
    }
}

#[test]
fn steps_of_empty_range() {
    let out = decide_steps(u(40), 0, 0, 5);
    assert_eq!(out, vec![StepLabel::new(0, 0)]);
}

#[test]
fn test_step_adjust() {
    let steps = XYPoint::new(5u32, 5u32);
    let area = Rect::new(0, 0, u(9), u(9));
    let adjusted = step_adjust(&area, &steps);
    assert_eq!(adjusted.x1 - adjusted.x0, u(10));
    assert_eq!(adjusted.y1 - adjusted.y0, u(10));
}

#[test]
fn step_adjust_keeps_multiples() {
    let area = Rect::new(0, 0, u(9), u(9));
    let adjusted = step_adjust(&area, &XY::new(1u32, 1u32));
    assert_eq!(adjusted, area);
    let moved = step_adjust(&Rect::new(u(3), u(4), u(10), u(11)), &XY::new(5u32, 2u32));
    assert_eq!(moved, Rect::new(u(3), u(3), u(13), u(11)));
}

#[test]
fn grids_with_uneven_offset() {
    let steps = XY::new(vec![0, u(100), u(200)], vec![0, u(10), u(20)]);
    let areas = vec![Rect::new(0, 0, u(200), u(20)), Rect::new(u(30), u(22), u(250), u(47))];
    for area in areas {
        let grid_draw = XY::new(false, true);
        let grid = mk_grids(&grid_draw, &steps, &area);
        for line in &grid {
            assert_eq!(line.p0.y, line.p1.y);
        }
        let botline = Line::new(Point::new(area.x0, area.y1), Point::new(area.x1, area.y1));
        assert!(grid.contains(&botline), "grid doesn't have bottom line {:?}: {:?}", botline, grid);
    }
}

#[test]
fn grids_vertical_lines() {
    let steps = XY::new(vec![0, u(5)], vec![]);
    let area = Rect::new(u(1), u(2), u(11), u(12));
    let grid = mk_grids(&XY::new(true, false), &steps, &area);
    assert_eq!(
        grid,
        vec![
            Line::new(Point::new(u(1), u(2)), Point::new(u(1), u(12))),
            Line::new(Point::new(u(6), u(2)), Point::new(u(6), u(12))),
        ]
    );
}

fn scatter() -> XYScatter {
    XYScatter {
        axis: XY::new("x".to_owned(), "y".to_owned()),
        steps: XY::new(10u32, 10u32),
        grid: None,
        margin: None,
    }
}

fn bounds(ps: &Vec<Point>) -> Rect {
    let mut r = Rect::new(ps[0].x, ps[0].y, ps[0].x, ps[0].y);
    for p in ps {
        r = r.union(&Rect::new(p.x, p.y, p.x, p.y));
    }
    r
}

#[test]
fn paths_with_offset() {
    let datasets = to_dataset(&vec![vec![
        XYPoint::new(0, 0),
        XYPoint::new(u(10), u(500)),
        XYPoint::new(u(20), u(551)),
    ]]);
    let chart = scatter();
    let areas = vec![Rect::new(0, 0, u(500), u(500)), Rect::new(u(50), u(88), u(400), u(300))];
    for area in areas {
        let paths = chart.calc_paths(&datasets, &area).unwrap();
        for bez in paths {
            assert!(bounds(&bez).area() <= area.area());
        }
    }
}

#[test]
fn scatter_points_stay_in_area() {
    let datasets = to_dataset(&vec![
        vec![XYPoint::new(u(1), u(2)), XYPoint::new(u(7), u(3))],
        vec![XYPoint::new(0, u(9)), XYPoint::new(u(3), 0), XYPoint::new(u(4), u(4))],
    ]);
    let area = Rect::new(u(10), u(20), u(110), u(70));
    let paths = scatter().calc_paths(&datasets, &area).unwrap();
    assert_eq!(paths.len(), 2);
    for path in &paths {
        for p in path {
            assert!(area.x0 <= p.x && p.x <= area.x1 && area.y0 <= p.y && p.y <= area.y1, "{:?}", p);
        }
    }
}

#[test]
fn scatter_scales_flips_and_centres() {
    let datasets = to_dataset(&vec![vec![XYPoint::new(0, 0), XYPoint::new(u(10), u(10))]]);
    let area = Rect::new(0, 0, u(100), u(50));
    let paths = scatter().calc_paths(&datasets, &area).unwrap();
    assert_eq!(paths[0], vec![Point::new(0, u(50)), Point::new(u(100), 0)]);
}

#[test]
fn scatter_rejects_no_points() {
    let none: Vec<Dataset<XY<i64>>> = vec![];
    let area = Rect::new(0, 0, u(10), u(10));
    assert!(matches!(scatter().calc_paths(&none, &area), Err(Error::EmptyDataset)));
    let empty = to_dataset::<XY<i64>>(&vec![vec![], vec![]]);
    assert!(matches!(scatter().calc_paths(&empty, &area), Err(Error::EmptyDataset)));
    let negative = to_dataset(&vec![vec![XYPoint::new(-1, 0)]]);
    assert!(matches!(scatter().calc_paths(&negative, &area), Err(Error::InvalidDatasets(_))));
}

#[test]
fn bar_blocks_of_example() {
    let datasets = to_dataset(&vec![vec![0, u(10)], vec![u(2), u(5)]]);
    let area = Rect::new(0, 0, u(12), u(12));
    let info = DrawingInfo::new(&datasets, area, 2000).unwrap();
    assert_eq!(info.block_w, 2500);
    assert_eq!(info.max_val, u(10));
    let block = info.block_rect(0, 1, u(10));
    assert_eq!(block.x0, 2500 * 2 + 2000);
    assert_eq!(block.x1, 2500 * 3 + 2000);
    assert_eq!(block.y1 - block.y0, u(12));
    for d in 0..2 {
        for c in 0..2 {
            let b = info.block_rect(d, c, datasets[d].values[c]);
            assert_eq!(area.union(&b), area);
        }
    }
    assert_eq!(info.cat_xbounds(1), (7000, 12000));
}

#[test]
fn bar_errors() {
    let area = Rect::new(0, 0, u(12), u(12));
    let none: Vec<Dataset<i64>> = vec![];
    assert!(matches!(DrawingInfo::new(&none, area, 2000), Err(Error::EmptyDataset)));
    let uneven = to_dataset(&vec![vec![u(1), u(2)], vec![u(3)]]);
    assert!(matches!(DrawingInfo::new(&uneven, area, 2000), Err(Error::InvalidDatasets(_))));
    let wide = to_dataset(&vec![vec![u(1); 7], vec![u(1); 7]]);
    match DrawingInfo::new(&wide, area, 2000) {
        Err(Error::NotEnoughSpace(needed, available, _)) => {
            assert_eq!(needed, 14);
            assert_eq!(available, i128::from(u(12) - 6 * 2000));
        }
        other => panic!("expected NotEnoughSpace, got {:?}", other.map(|i| i.block_w)),
    }
    let mut chart = BarChart::new();
    chart.categories = vec!["a".to_owned()];
    let two = to_dataset(&vec![vec![u(1), u(2)]]);
    let font = FontInfo::default();
    assert!(matches!(chart.layout(&two, area, &font, 0), Err(Error::InvalidDatasets(_))));
}

#[test]
fn bar_all_zero_values() {
    let datasets = to_dataset(&vec![vec![0, 0]]);
    let area = Rect::new(0, 0, u(12), u(12));
    let info = DrawingInfo::new(&datasets, area, 2000).unwrap();
    assert_eq!(info.max_val, 0);
    let b = info.block_rect(0, 1, 0);
    assert_eq!(b.y0, b.y1);
}

#[test]
fn bar_layout_twice_is_identical() {
    let datasets = to_dataset(&vec![vec![u(3), u(10)], vec![u(2), u(5)]]);
    let mut chart = BarChart::new();
    chart.categories = vec!["a".to_owned(), "b".to_owned()];
    chart.axis = Some("count".to_owned());
    let area = Rect::new(u(40), u(10), u(240), u(110));
    let font = FontInfo::default();
    let first = chart.layout(&datasets, area, &font, u(12)).unwrap();
    let second = chart.layout(&datasets, area, &font, u(12)).unwrap();
    assert_eq!(format!("{:?}", first), format!("{:?}", second));
    // ticks every 10 units from 0 to 10: one grid line and one label each,
    // four blocks, two category names, one title
    assert_eq!(first.len(), 2 + 2 + 4 + 2 + 1);
}
