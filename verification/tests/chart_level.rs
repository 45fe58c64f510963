use plotters::area::{DrawingArea, PixelRect};
use plotters::axes::{AxisRange, AxisValue};
use plotters::chart::{candlestick_series, histogram_series, point_series, ChartBuilder};
use plotters::coord::CoordError;
use plotters::element::{DrawCommand, Element};
use plotters::style::{FontDesc, RgbaColor, ShapeStyle, TextStyle};

fn green() -> ShapeStyle {
    ShapeStyle::new(RgbaColor::rgb(0, 255, 0))
}

#[test]
fn chart_margins_shrink_plot_area() {
    let root = DrawingArea::from_surface(640, 480);
    let cc = ChartBuilder::on(root)
        .x_label_area_size(30)
        .y_label_area_size(40)
        .caption(b"demo".to_vec(), 20)
        .build_ranged(
            AxisRange::Linear { min: 0, max: 10 },
            AxisRange::Linear { min: 0, max: 10 },
        )
        .unwrap();
    assert_eq!(cc.plot.rect, PixelRect { x0: 40, y0: 20, x1: 640, y1: 450 });
    assert_eq!(cc.caption, Some(b"demo".to_vec()));
}

#[test]
fn chart_caption_element() {
    let root = DrawingArea::from_surface(640, 480);
    let cc = ChartBuilder::on(root)
        .caption(b"title".to_vec(), 20)
        .build_ranged(
            AxisRange::Linear { min: 0, max: 10 },
            AxisRange::Linear { min: 0, max: 10 },
        )
        .unwrap();
    let style = TextStyle::new(FontDesc::new(b"sans".to_vec(), 16));
    match cc.caption_element(&style) {
        Some(Element::Text { text, at, .. }) => {
            assert_eq!(text, b"title".to_vec());
            assert_eq!(at, (AxisValue::Num(0), AxisValue::Num(0)));
        },
        _ => panic!("a caption was set, so an element must come back"),
    }
}

#[test]
fn chart_rejects_bad_range() {
    let root = DrawingArea::from_surface(640, 480);
    let r = ChartBuilder::on(root).build_ranged(
        AxisRange::Linear { min: 10, max: 10 },
        AxisRange::Linear { min: 0, max: 10 },
    );
    assert_eq!(r.err(), Some(CoordError::EmptyRange));
}

#[test]
fn mesh_counts_and_positions() {
    let root = DrawingArea::from_surface(600, 400);
    let cc = ChartBuilder::on(root)
        .build_ranged(
            AxisRange::Linear { min: 0, max: 10 },
            AxisRange::Linear { min: 0, max: 20 },
        )
        .unwrap();
    let label_style = TextStyle::new(FontDesc::new(b"sans".to_vec(), 10));
    let es = cc.mesh_elements(3, 2, green(), &label_style).unwrap();
    assert_eq!(es.len(), 2 * (3 + 2));
    // the first X gridline runs along x == 0 from y min to y max
    match &es[0] {
        Element::Line { from, to, .. } => {
            assert_eq!(from, &(AxisValue::Num(0), AxisValue::Num(0)));
            assert_eq!(to, &(AxisValue::Num(0), AxisValue::Num(20)));
        },
        _ => panic!("expected a gridline first"),
    }
    // its label carries the default numeric text
    match &es[1] {
        Element::Text { text, .. } => assert_eq!(text, &b"0".to_vec()),
        _ => panic!("expected a tick label after the gridline"),
    }
    // the middle X tick sits at 5
    match &es[2] {
        Element::Line { from, .. } => assert_eq!(from.0, AxisValue::Num(5)),
        _ => panic!("expected a gridline"),
    }
    // Y gridlines follow the X pairs
    match &es[6] {
        Element::Line { from, to, .. } => {
            assert_eq!(from, &(AxisValue::Num(0), AxisValue::Num(0)));
            assert_eq!(to, &(AxisValue::Num(10), AxisValue::Num(0)));
        },
        _ => panic!("expected a horizontal gridline"),
    }
}

#[test]
fn mesh_needs_linear_axes() {
    let root = DrawingArea::from_surface(600, 400);
    let cc = ChartBuilder::on(root)
        .build_ranged(
            AxisRange::Log { min: 1, max: 1000 },
            AxisRange::Linear { min: 0, max: 20 },
        )
        .unwrap();
    let label_style = TextStyle::new(FontDesc::new(b"sans".to_vec(), 10));
    assert_eq!(
        cc.mesh_elements(3, 2, green(), &label_style).err(),
        Some(CoordError::ValueKindMismatch)
    );
}

#[test]
fn point_series_one_circle_per_point() {
    let pts = vec![
        (AxisValue::Num(1), AxisValue::Num(2)),
        (AxisValue::Num(3), AxisValue::Num(4)),
    ];
    let es = point_series(pts, 5, green());
    assert_eq!(es.len(), 2);
    match &es[1] {
        Element::Circle { center, radius, .. } => {
            assert_eq!(center, &(AxisValue::Num(3), AxisValue::Num(4)));
            assert_eq!(*radius, 5);
        },
        _ => panic!("a point series is made of circles"),
    }
}

#[test]
fn histogram_bars_span_one_unit() {
    let vals = vec![(0, 7), (1, 3)];
    let es = histogram_series(&vals, 0, green().filled());
    assert_eq!(es.len(), 2);
    match &es[0] {
        Element::Rect { corner0, corner1, style } => {
            assert_eq!(corner0, &(AxisValue::Num(0), AxisValue::Num(0)));
            assert_eq!(corner1, &(AxisValue::Num(1), AxisValue::Num(7)));
            assert!(style.filled);
        },
        _ => panic!("a histogram is made of rectangles"),
    }
}

#[test]
fn candlestick_wick_and_body() {
    let entries = vec![(10, 5, 9, 2, 7)];
    let es = candlestick_series(&entries, 2, green());
    assert_eq!(es.len(), 2);
    match &es[0] {
        Element::Line { from, to, .. } => {
            assert_eq!(from, &(AxisValue::Num(10), AxisValue::Num(9)));
            assert_eq!(to, &(AxisValue::Num(10), AxisValue::Num(2)));
        },
        _ => panic!("the wick comes first"),
    }
    match &es[1] {
        Element::Rect { corner0, corner1, .. } => {
            assert_eq!(corner0, &(AxisValue::Num(8), AxisValue::Num(5)));
            assert_eq!(corner1, &(AxisValue::Num(12), AxisValue::Num(7)));
        },
        _ => panic!("the body follows the wick"),
    }
}

#[test]
fn discrete_axis_through_area() {
    let root = DrawingArea::from_surface(300, 300);
    let area = root
        .apply_coord_spec(
            AxisRange::Discrete {
                labels: vec![b"a".to_vec(), b"b".to_vec(), b"c".to_vec()],
            },
            AxisRange::Linear { min: 0, max: 10 },
        )
        .unwrap();
    let e = Element::Pixel {
        at: (AxisValue::Label(b"b".to_vec()), AxisValue::Num(0)),
        style: green(),
    };
    let cmds = area.resolve(&e).unwrap();
    match &cmds[0] {
        DrawCommand::Pixel { x, y, .. } => {
            assert_eq!(*x, 150);
            assert_eq!(*y, 300);
        },
        _ => panic!("expected one pixel command"),
    }
    let bad = Element::Pixel {
        at: (AxisValue::Label(b"d".to_vec()), AxisValue::Num(0)),
        style: green(),
    };
    assert_eq!(area.resolve(&bad).err(), Some(CoordError::UnknownLabel));
}
