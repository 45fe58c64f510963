use plotters::area::{DrawingArea, PixelRect};
use plotters::axes::{AxisRange, AxisSpec, AxisValue, Coord2};
use plotters::backend::{DrawError, DrawingBackend};
use plotters::chart::{compute_ticks, format_label, line_series, ChartBuilder};
use plotters::coord::{CoordError, DiscreteSpec, LinearSpec};
use plotters::element::{ComposedElement, DrawCommand, Element, LocalPrimitive};
use plotters::logscale::{log_fix_u64, LogSpec};
use plotters::style::{FontDesc, RgbaColor, ShapeStyle, TextStyle};

fn red() -> ShapeStyle {
    ShapeStyle::new(RgbaColor::rgb(255, 0, 0))
}

#[test]
fn linear_boundary_exactness() {
    let s = LinearSpec::new(-1000, 1000, 0, 640).unwrap();
    assert_eq!(s.map(-1000), 0);
    assert_eq!(s.map(1000), 640);
    let down = LinearSpec::new(0, 10, 480, 0).unwrap();
    assert_eq!(down.map(0), 480);
    assert_eq!(down.map(10), 0);
}

#[test]
fn linear_midpoint_and_rounding() {
    let s = LinearSpec::new(0, 10, 0, 100).unwrap();
    assert_eq!(s.map(5), 50);
    assert_eq!(s.map(3), 30);
    // out-of-range values map outside [lo, hi] and are not clamped
    assert_eq!(s.map(20), 200);
    assert_eq!(s.map(-5), -50);
}

#[test]
fn linear_monotone_samples() {
    let s = LinearSpec::new(-500, 500, 0, 300).unwrap();
    let mut prev = s.map(-500);
    for v in (-500..=500).step_by(7) {
        let p = s.map(v);
        assert!(p >= prev);
        prev = p;
    }
    let down = LinearSpec::new(-500, 500, 300, 0).unwrap();
    let mut prev = down.map(-500);
    for v in (-500..=500).step_by(7) {
        let p = down.map(v);
        assert!(p <= prev);
        prev = p;
    }
}

#[test]
fn linear_empty_range_refused() {
    assert_eq!(LinearSpec::new(5, 5, 0, 100), Err(CoordError::EmptyRange));
    assert_eq!(LinearSpec::new(7, 3, 0, 100), Err(CoordError::EmptyRange));
}

#[test]
fn log_scenario_powers_of_ten() {
    let s = LogSpec::new(1, 1000, 0, 300).unwrap();
    assert_eq!(s.map(1), Ok(0));
    assert_eq!(s.map(1000), Ok(300));
    assert_eq!(s.map(10), Ok(100));
    assert_eq!(s.map(100), Ok(200));
}

#[test]
fn log_rejects_non_positive() {
    let s = LogSpec::new(1, 1000, 0, 300).unwrap();
    assert_eq!(s.map(0), Err(CoordError::NonPositive));
    assert_eq!(s.map(-3), Err(CoordError::NonPositive));
    assert_eq!(LogSpec::new(0, 10, 0, 100), Err(CoordError::NonPositive));
    assert_eq!(LogSpec::new(10, 10, 0, 100), Err(CoordError::EmptyRange));
}

#[test]
fn log_monotone_samples() {
    let s = LogSpec::new(1, 1000000, 0, 600).unwrap();
    let mut prev = s.map(1).unwrap();
    for v in [1, 2, 3, 7, 9, 10, 11, 42, 99, 100, 101, 999, 5000, 99999, 1000000] {
        let p = s.map(v).unwrap();
        assert!(p >= prev, "log map must not decrease at {}", v);
        prev = p;
    }
}

#[test]
fn log_fix_exact_on_anchors() {
    assert_eq!(log_fix_u64(1), 0);
    assert_eq!(log_fix_u64(10), 1000000);
    assert_eq!(log_fix_u64(100), 2000000);
    assert_eq!(log_fix_u64(1000000000), 9000000);
    assert_eq!(log_fix_u64(2), 301030);
    assert_eq!(log_fix_u64(300), 2477121);
}

#[test]
fn discrete_slot_centers() {
    let labels = vec![b"a".to_vec(), b"b".to_vec(), b"c".to_vec()];
    let s = DiscreteSpec::new(labels, 0, 300).unwrap();
    assert_eq!(s.map(b"a"), Ok(50));
    assert_eq!(s.map(b"b"), Ok(150));
    assert_eq!(s.map(b"c"), Ok(250));
    assert_eq!(s.map(b"d"), Err(CoordError::UnknownLabel));
}

#[test]
fn discrete_rejects_bad_domains() {
    assert_eq!(
        DiscreteSpec::new(Vec::new(), 0, 300).unwrap_err(),
        CoordError::EmptyDomain
    );
    let dup = vec![b"a".to_vec(), b"b".to_vec(), b"a".to_vec()];
    assert_eq!(DiscreteSpec::new(dup, 0, 300).unwrap_err(), CoordError::DuplicateLabel);
}

#[test]
fn axis_kind_mismatch() {
    let lin = LinearSpec::new(0, 10, 0, 100).unwrap();
    let c = Coord2 { x: AxisSpec::Linear(lin), y: AxisSpec::Linear(lin) };
    let r = c.translate(&(AxisValue::Label(b"a".to_vec()), AxisValue::Num(3)));
    assert_eq!(r, Err(CoordError::ValueKindMismatch));
}

#[test]
fn split_evenly_tiles_exactly() {
    let root = DrawingArea::from_surface(300, 200);
    let cells = root.split_evenly(3, 3);
    assert_eq!(cells.len(), 9);
    // column edges 0,100,200,300; row edges 0,66,132,200
    let xs = [0, 100, 200, 300];
    let ys = [0, 66, 132, 200];
    for i in 0..3 {
        for j in 0..3 {
            let r = cells[i * 3 + j].rect;
            assert_eq!(r, PixelRect { x0: xs[j], y0: ys[i], x1: xs[j + 1], y1: ys[i + 1] });
        }
    }
    // the cells tile the parent: total area matches and neighbours share edges
    let total: i64 = cells
        .iter()
        .map(|c| {
            ((c.rect.x1 - c.rect.x0) as i64) * ((c.rect.y1 - c.rect.y0) as i64)
        })
        .sum();
    assert_eq!(total, 300 * 200);
}

#[test]
fn split_evenly_degenerate_cells() {
    // fewer pixels than columns: early cells are empty, the last takes the rest
    let root = DrawingArea::from_surface(2, 10);
    let cells = root.split_evenly(1, 4);
    assert_eq!(cells.len(), 4);
    assert_eq!(cells[0].rect, PixelRect { x0: 0, y0: 0, x1: 0, y1: 10 });
    assert_eq!(cells[3].rect, PixelRect { x0: 0, y0: 0, x1: 2, y1: 10 });
    let total: i64 = cells
        .iter()
        .map(|c| {
            ((c.rect.x1 - c.rect.x0) as i64) * ((c.rect.y1 - c.rect.y0) as i64)
        })
        .sum();
    assert_eq!(total, 2 * 10);
}

#[test]
fn margin_insets_and_clamps() {
    let root = DrawingArea::from_surface(100, 80);
    let inner = root.margin(10, 10, 5, 5);
    assert_eq!(inner.rect, PixelRect { x0: 5, y0: 10, x1: 95, y1: 70 });
    let empty = root.margin(100, 100, 0, 0);
    assert_eq!(empty.rect.y0, empty.rect.y1);
    assert!(empty.rect.y0 <= 80);
}

#[test]
fn fill_is_deterministic() {
    let root = DrawingArea::from_surface(100, 80);
    let c = RgbaColor::rgb(10, 20, 30);
    let first = root.fill(c);
    let second = root.fill(c);
    assert_eq!(first, second);
    match first {
        DrawCommand::Rect { x0, y0, x1, y1, style } => {
            assert_eq!((x0, y0, x1, y1), (0, 0, 100, 80));
            assert!(style.filled);
            assert_eq!(style.color, c);
        },
        _ => panic!("fill must be a filled rectangle"),
    }
}

#[test]
fn composed_element_pixel_frame() {
    // anchor goes through the spec once; offsets are pure pixel shifts
    let root = DrawingArea::from_surface(640, 480);
    let area = root
        .apply_coord_spec(
            AxisRange::Linear { min: 0, max: 10 },
            AxisRange::Linear { min: 0, max: 10 },
        )
        .unwrap();
    // anchor (5,5) resolves to pixel (320, 240): x 0..10 -> 0..640, y 0..10 -> 480..0
    let e = ComposedElement::at((AxisValue::Num(5), AxisValue::Num(5)));
    let e = e
        .with_child(LocalPrimitive::Circle { dx: 0, dy: 0, radius: 3, style: red() })
        .unwrap();
    let e = e
        .with_child(LocalPrimitive::Text {
            text: b"pt".to_vec(),
            dx: 10,
            dy: 0,
            style: TextStyle::new(FontDesc::new(b"sans".to_vec(), 12)),
        })
        .unwrap();
    let cmds = area.resolve(&Element::Composed(e)).unwrap();
    assert_eq!(cmds.len(), 2);
    match &cmds[0] {
        DrawCommand::Circle { x, y, radius, .. } => {
            assert_eq!((*x, *y, *radius), (320, 240, 3));
        },
        _ => panic!("first child must stay first"),
    }
    match &cmds[1] {
        DrawCommand::Text { x, y, text, .. } => {
            assert_eq!((*x, *y), (330, 240));
            assert_eq!(text, b"pt");
        },
        _ => panic!("second child must stay second"),
    }
}

#[test]
fn composed_offsets_skip_the_spec() {
    // the same composed shape, drawn under two different specs, keeps
    // the same offsets from its resolved anchor
    let root = DrawingArea::from_surface(640, 480);
    let mk = || {
        ComposedElement::at((AxisValue::Num(1), AxisValue::Num(1)))
            .with_child(LocalPrimitive::Pixel { dx: 7, dy: -2, style: red() })
            .unwrap()
    };
    let a1 = root
        .apply_coord_spec(
            AxisRange::Linear { min: 0, max: 2 },
            AxisRange::Linear { min: 0, max: 2 },
        )
        .unwrap();
    let a2 = root
        .apply_coord_spec(
            AxisRange::Linear { min: 0, max: 4 },
            AxisRange::Linear { min: 0, max: 4 },
        )
        .unwrap();
    let c1 = a1.resolve(&Element::Composed(mk())).unwrap();
    let c2 = a2.resolve(&Element::Composed(mk())).unwrap();
    match (&c1[0], &c2[0]) {
        (DrawCommand::Pixel { x: x1, y: y1, .. }, DrawCommand::Pixel { x: x2, y: y2, .. }) => {
            // anchors differ between the two specs, offsets agree
            assert_eq!((*x1, *y1), (320 + 7, 240 - 2));
            assert_eq!((*x2, *y2), (160 + 7, 360 - 2));
        },
        _ => panic!("expected pixel commands"),
    }
}

#[test]
fn parabola_line_series_scenario() {
    // 640x480 surface, x in [-1, 1] (milli-units), y in [-0.1, 1]
    let root = DrawingArea::from_surface(640, 480);
    let cc = ChartBuilder::on(root)
        .build_ranged(
            AxisRange::Linear { min: -1000, max: 1000 },
            AxisRange::Linear { min: -100, max: 1000 },
        )
        .unwrap();
    let pts: Vec<(AxisValue, AxisValue)> = (-50..=50)
        .map(|i| {
            let x: i32 = i * 20;
            let y: i32 = (x * x) / 1000;
            (AxisValue::Num(x), AxisValue::Num(y))
        })
        .collect();
    let cmds = cc.plot.resolve(&line_series(pts, red())).unwrap();
    assert_eq!(cmds.len(), 1);
    let pix = match &cmds[0] {
        DrawCommand::Path { points, .. } => points.clone(),
        _ => panic!("a line series resolves to one polyline"),
    };
    assert_eq!(pix.len(), 101);
    // endpoints at pixel (0, map_y(1)) and (640, map_y(1)); y max maps to the top
    assert_eq!(pix[0], (0, 0));
    assert_eq!(pix[100], (640, 0));
    // pixel y decreases as |x| increases
    for i in 50..100 {
        assert!(pix[i + 1].1 <= pix[i].1);
    }
    for i in 0..50 {
        assert!(pix[i + 1].1 >= pix[i].1);
    }
}

#[test]
fn compute_ticks_endpoints() {
    assert_eq!(compute_ticks(0, 10, 3), vec![0, 5, 10]);
    assert_eq!(compute_ticks(-10, 10, 5), vec![-10, -5, 0, 5, 10]);
    let t = compute_ticks(0, 7, 4);
    assert_eq!(t.first(), Some(&0));
    assert_eq!(t.last(), Some(&7));
}

#[test]
fn format_label_decimal() {
    assert_eq!(format_label(0), b"0".to_vec());
    assert_eq!(format_label(42), b"42".to_vec());
    assert_eq!(format_label(-123), b"-123".to_vec());
    assert_eq!(format_label(i32::MIN), b"-2147483648".to_vec());
}

#[test]
fn style_builders() {
    let font = FontDesc::new(b"Arial".to_vec(), 12);
    let ts = TextStyle::new(font);
    assert_eq!(ts.color, RgbaColor { r: 0, g: 0, b: 0, alpha: 255 });
    let blue = RgbaColor::rgb(0, 0, 255);
    let ts2 = ts.color(blue);
    assert_eq!(ts2.color, blue);
    assert_eq!(ts2.font.name, b"Arial".to_vec());
    let ss = ShapeStyle::from(RgbaColor::rgb(1, 2, 3));
    assert!(!ss.filled);
    let filled = ss.filled();
    assert!(filled.filled);
    assert_eq!(filled.color, ss.color);
}

struct Recorder {
    calls: Vec<String>,
    fail_on_call: Option<usize>,
    presented: usize,
}

impl Recorder {
    fn new(fail_on_call: Option<usize>) -> Self {
        Recorder { calls: Vec::new(), fail_on_call, presented: 0 }
    }

    fn step(&mut self, what: String) -> Result<(), String> {
        let n = self.calls.len();
        self.calls.push(what);
        if self.fail_on_call == Some(n) {
            Err(format!("boom at {}", n))
        } else {
            Ok(())
        }
    }
}

impl DrawingBackend for Recorder {
    type ErrorType = String;

    fn get_size(&self) -> (u32, u32) {
        (640, 480)
    }

    fn ensure_prepared(&mut self) -> Result<(), String> {
        Ok(())
    }

    fn present(&mut self) -> Result<(), String> {
        self.presented += 1;
        Ok(())
    }

    fn draw_pixel(&mut self, x: i64, y: i64, _style: &ShapeStyle) -> Result<(), String> {
        self.step(format!("pixel {} {}", x, y))
    }

    fn draw_line(
        &mut self,
        x0: i64,
        y0: i64,
        x1: i64,
        y1: i64,
        _style: &ShapeStyle,
    ) -> Result<(), String> {
        self.step(format!("line {} {} {} {}", x0, y0, x1, y1))
    }

    fn draw_rect(
        &mut self,
        x0: i64,
        y0: i64,
        x1: i64,
        y1: i64,
        _style: &ShapeStyle,
    ) -> Result<(), String> {
        self.step(format!("rect {} {} {} {}", x0, y0, x1, y1))
    }

    fn draw_path(&mut self, points: &Vec<(i64, i64)>, _style: &ShapeStyle) -> Result<(), String> {
        self.step(format!("path {}", points.len()))
    }

    fn draw_circle(&mut self, x: i64, y: i64, radius: u32, _style: &ShapeStyle) -> Result<(), String> {
        self.step(format!("circle {} {} {}", x, y, radius))
    }

    fn draw_text(&mut self, text: &Vec<u8>, x: i64, y: i64, _style: &TextStyle) -> Result<(), String> {
        self.step(format!("text {} {} {}", String::from_utf8_lossy(text), x, y))
    }
}

#[test]
fn draw_dispatches_in_order() {
    let root = DrawingArea::from_surface(640, 480);
    let mut b = Recorder::new(None);
    let e = ComposedElement::at((AxisValue::Num(100), AxisValue::Num(100)))
        .with_child(LocalPrimitive::Circle { dx: 0, dy: 0, radius: 3, style: red() })
        .unwrap()
        .with_child(LocalPrimitive::Pixel { dx: 10, dy: 0, style: red() })
        .unwrap();
    root.draw(&Element::Composed(e), &mut b).unwrap();
    assert_eq!(b.calls, vec!["circle 100 100 3".to_string(), "pixel 110 100".to_string()]);
    assert_eq!(b.presented, 1);
}

#[test]
fn draw_failure_aborts_but_presents() {
    let root = DrawingArea::from_surface(640, 480);
    let mut b = Recorder::new(Some(0));
    let e = ComposedElement::at((AxisValue::Num(1), AxisValue::Num(1)))
        .with_child(LocalPrimitive::Pixel { dx: 0, dy: 0, style: red() })
        .unwrap()
        .with_child(LocalPrimitive::Pixel { dx: 1, dy: 0, style: red() })
        .unwrap();
    let r = root.draw(&Element::Composed(e), &mut b);
    match r {
        Err(DrawError::Backend(msg)) => assert_eq!(msg, "boom at 0"),
        _ => panic!("the first primitive failure must be propagated"),
    }
    // the failure aborted the second primitive, but present still ran
    assert_eq!(b.calls.len(), 1);
    assert_eq!(b.presented, 1);
}

#[test]
fn coordinate_error_reported_before_backend_calls() {
    let root = DrawingArea::from_surface(640, 480);
    let log_area = root
        .apply_coord_spec(
            AxisRange::Log { min: 1, max: 1000 },
            AxisRange::Linear { min: 0, max: 10 },
        )
        .unwrap();
    let mut b = Recorder::new(None);
    let bad = Element::Pixel { at: (AxisValue::Num(-5), AxisValue::Num(3)), style: red() };
    match log_area.draw(&bad, &mut b) {
        Err(DrawError::Coord(e)) => assert_eq!(e, CoordError::NonPositive),
        _ => panic!("a domain error must surface as a coordinate error"),
    }
    assert!(b.calls.is_empty());
}

#[test]
fn nested_composition_flattens_offsets() {
    let root = DrawingArea::from_surface(640, 480);
    let child = ComposedElement::at((AxisValue::Num(0), AxisValue::Num(0)))
        .with_child(LocalPrimitive::Pixel { dx: 1, dy: 2, style: red() })
        .unwrap();
    let parent = ComposedElement::at((AxisValue::Num(100), AxisValue::Num(200)))
        .with_child(LocalPrimitive::Circle { dx: 0, dy: 0, radius: 4, style: red() })
        .unwrap()
        .nest(30, 40, &child)
        .unwrap();
    let cmds = root.resolve(&Element::Composed(parent)).unwrap();
    assert_eq!(cmds.len(), 2);
    match &cmds[1] {
        DrawCommand::Pixel { x, y, .. } => {
            // anchor (100,200) + nest offset (30,40) + child offset (1,2)
            assert_eq!((*x, *y), (131, 242));
        },
        _ => panic!("the nested child must come after the parent's own parts"),
    }
}
