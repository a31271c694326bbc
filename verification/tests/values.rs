//! Numbers, names, columns, diffs, and style sheets.

use std::f64::consts::FRAC_PI_2;
use std::sync::Arc;

use hephaestus::channel::{Channel, Channels};
use hephaestus::diff::{RowKey, diff_columns, diff_positional};
use hephaestus::expr::{Cond, Expr, Quantity};
use hephaestus::geom::rich::{OutlineSheets, StyleDelta, StyleSheet, panel_space_transform};
use hephaestus::names::{NameMap, decimal, name_less, same_name};
use hephaestus::num::Num;
use hephaestus::order::sorted;
use hephaestus::pick::PickId;
use hephaestus::resolve::{Bound, ScaleOutputs};
use hephaestus::scene::{Cap, HAlign, Join, Paint, Point, Xform};
use hephaestus::value::{Color, DataColumn, Value};

/// The number `x`.
fn num(x: f64) -> Num {
    Num::from_bits(x.to_bits())
}

/// The number as the machine holds it.
fn float(x: Num) -> f64 {
    f64::from_bits(x.bits)
}

/// A column of numbers, mapped by the channel's scale.
fn numbers(xs: &[f64]) -> Channel {
    Channel::Data(DataColumn::F64(Arc::new(xs.iter().map(|x| num(*x)).collect())))
}

/// A column of numbers, taken as they are.
fn raw_numbers(xs: &[f64]) -> Channel {
    Channel::RawData(DataColumn::F64(Arc::new(xs.iter().map(|x| num(*x)).collect())))
}

/// One number for every row, taken as it is.
fn raw_number(x: f64) -> Channel {
    Channel::RawConstant(Value::Number(num(x)))
}

/// A column of strings.
fn words(xs: &[&str]) -> Channel {
    Channel::Data(DataColumn::String(Arc::new(xs.iter().map(|x| x.to_string()).collect())))
}

/// One string for every row.
fn word(x: &str) -> Channel {
    Channel::Constant(Value::String(x.to_string()))
}

/// One truth value for every row.
fn flag(x: bool) -> Channel {
    Channel::Constant(Value::Bool(x))
}

/// A colour by its parts.
fn rgba(r: f32, g: f32, b: f32, a: f32) -> Color {
    Color { r: r.to_bits(), g: g.to_bits(), b: b.to_bits(), a: a.to_bits() }
}

fn red() -> Color {
    rgba(1.0, 0.0, 0.0, 1.0)
}

/// One colour for every row.
fn ink(c: Color) -> Channel {
    Channel::Constant(Value::Color(c))
}

/// A number that a scale gives, for each row.
fn scaled(xs: &[f64]) -> Arc<Vec<Value>> {
    Arc::new(xs.iter().map(|x| Value::Number(num(*x))).collect())
}

/// What has been measured on the page.
#[derive(Clone)]
struct Measures {
    values: Vec<(Quantity, f64)>,
}

impl Measures {
    /// A panel, at this many dots per inch.
    fn panel(x0: f64, y0: f64, x1: f64, y1: f64, dpi: f64) -> Measures {
        Measures {
            values: vec![
                (Quantity::PanelX0, x0),
                (Quantity::PanelY0, y0),
                (Quantity::PanelX1, x1),
                (Quantity::PanelY1, y1),
                (Quantity::Dpi, dpi),
            ],
        }
    }

    /// The same, with one quantity more.
    fn with(&self, q: Quantity, x: f64) -> Measures {
        let mut values: Vec<(Quantity, f64)> =
            self.values.iter().filter(|(p, _)| *p != q).cloned().collect();
        values.push((q, x));
        Measures { values }
    }

    fn get(&self, q: Quantity) -> f64 {
        match self.values.iter().find(|(p, _)| *p == q) {
            Some((_, x)) => *x,
            None => panic!("{:?} was not measured", q),
        }
    }
}

/// What the expression comes to.
fn value(e: &Expr, m: &Measures) -> f64 {
    match e {
        Expr::Lit(n) => float(*n),
        Expr::Ratio(p, q) => *p as f64 / *q as f64,
        Expr::Var(q) => m.get(*q),
        Expr::Neg(a) => -value(a, m),
        Expr::Add(a, b) => value(a, m) + value(b, m),
        Expr::Sub(a, b) => value(a, m) - value(b, m),
        Expr::Mul(a, b) => value(a, m) * value(b, m),
        Expr::Div(a, b) => value(a, m) / value(b, m),
        Expr::Min(a, b) => value(a, m).min(value(b, m)),
        Expr::Max(a, b) => value(a, m).max(value(b, m)),
        Expr::Clamp(a, lo, hi) => value(a, m).clamp(value(lo, m), value(hi, m)),
        Expr::Abs(a) => value(a, m).abs(),
        Expr::Sin(a) => value(a, m).sin(),
        Expr::Cos(a) => value(a, m).cos(),
        Expr::Sqrt(a) => value(a, m).sqrt(),
        Expr::Atan2(y, x) => value(y, m).atan2(value(x, m)),
        Expr::Select(c, a, b) => {
            if holds(c, m) {
                value(a, m)
            } else {
                value(b, m)
            }
        }
    }
}

/// Whether the condition holds.
fn holds(c: &Cond, m: &Measures) -> bool {
    match c {
        Cond::Always => true,
        Cond::Finite(a) => value(a, m).is_finite(),
        Cond::Gt(a, b) => value(a, m) > value(b, m),
        Cond::Ge(a, b) => value(a, m) >= value(b, m),
        Cond::Eq(a, b) => value(a, m) == value(b, m),
        Cond::Not(a) => !holds(a, m),
        Cond::And(a, b) => holds(a, m) && holds(b, m),
        Cond::Or(a, b) => holds(a, m) || holds(b, m),
    }
}

/// Where the point is.
fn place(p: &Point, m: &Measures) -> (f64, f64) {
    (value(&p.x, m), value(&p.y, m))
}

/// Where the transform takes the point.
fn turned(x: &Xform, p: (f64, f64), m: &Measures) -> (f64, f64) {
    match x {
        Xform::Identity => p,
        Xform::RotateAbout { angle, at } => {
            let (s, c) = value(angle, m).sin_cos();
            let (ax, ay) = place(at, m);
            let (dx, dy) = (p.0 - ax, p.1 - ay);
            (ax + c * dx - s * dy, ay + s * dx + c * dy)
        }
    }
}

/// Whether two numbers are the same but for rounding.
fn near(a: f64, b: f64) -> bool {
    (a - b).abs() < 1e-6
}

fn strings(xs: &[&str]) -> DataColumn {
    DataColumn::String(Arc::new(xs.iter().map(|x| x.to_string()).collect()))
}

#[test]
fn numbers_know_what_they_are() {
    assert!(num(1.5).is_finite());
    assert!(!num(f64::NAN).is_finite());
    assert!(!num(f64::NEG_INFINITY).is_finite());
    assert!(num(5e-324).is_above_zero());
    assert!(!num(0.0).is_above_zero());
    assert!(!num(-1.0).is_above_zero());
    assert!(!num(f64::NAN).is_above_zero());
    assert!(num(-0.0).is_zero());
    assert!(!num(5e-324).is_zero());
    assert!(Num::zero().is_zero());
}

#[test]
fn numbers_are_in_order() {
    let xs = [f64::NEG_INFINITY, -1e300, -1.5, -0.0, 0.0, 5e-324, 1.0, 1e300, f64::INFINITY];
    for a in xs {
        for b in xs {
            assert_eq!(num(a).is_less(num(b)), a < b, "{} {}", a, b);
            assert_eq!(num(a).is_at_most(num(b)), a <= b, "{} {}", a, b);
        }
        assert!(!num(a).is_less(num(f64::NAN)));
        assert!(!num(f64::NAN).is_at_most(num(a)));
    }
}

#[test]
fn pick_ids_are_whole() {
    assert_eq!(num(7.0).as_pick_index(), Some(7));
    assert_eq!(num(16777215.0).as_pick_index(), Some(16777215));
    assert_eq!(num(16777216.0).as_pick_index(), None);
    assert_eq!(num(-0.0).as_pick_index(), Some(0));
    assert_eq!(num(2.5).as_pick_index(), None);
    assert_eq!(num(-1.0).as_pick_index(), None);
}

#[test]
fn whole_parts_are_cut() {
    assert_eq!(num(3.99).whole_part(), 3);
    assert_eq!(num(0.5).whole_part(), 0);
    assert_eq!(num(-2.0).whole_part(), 0);
    assert_eq!(num(f64::NAN).whole_part(), 0);
    assert_eq!(num(4503599627370497.0).whole_part(), 4503599627370497);
}

#[test]
fn nearest_numbers_round_halves_up() {
    assert_eq!(num(2.5).nearest_between(1, 1000), 3);
    assert_eq!(num(2.49).nearest_between(1, 1000), 2);
    assert_eq!(num(-3.0).nearest_between(1, 1000), 1);
    assert_eq!(num(1e9).nearest_between(1, 1000), 1000);
}

#[test]
fn sorting_keeps_numbers() {
    let xs: Vec<Num> = [3.0, -1.0, 2.0, 2.0, -0.5].map(num).to_vec();
    let ys: Vec<f64> = sorted(&xs).iter().map(|x| float(*x)).collect();
    assert_eq!(ys, vec![-1.0, -0.5, 2.0, 2.0, 3.0]);
}

#[test]
fn maps_keep_one_value_for_each_name() {
    let mut m: NameMap<u32> = NameMap::new();
    assert_eq!(m.insert("b".to_string(), 1), None);
    assert_eq!(m.insert("a".to_string(), 2), None);
    assert_eq!(m.insert("b".to_string(), 3), Some(1));
    assert_eq!(m.len(), 2);
    assert_eq!(m.get("b"), Some(&3));
    assert!(m.contains("a"));
    assert_eq!(m.remove("a"), Some(2));
    assert_eq!(m.remove("a"), None);
    assert_eq!((m.name_at(0).as_str(), *m.value_at(0)), ("b", 3));
}

#[test]
fn names_are_in_order() {
    assert!(name_less("a", "b"));
    assert!(name_less("a", "aa"));
    assert!(!name_less("b", "a"));
    assert!(!name_less("a", "a"));
    assert!(same_name("x2", "x2"));
    assert!(!same_name("x2", "x"));
    assert_eq!(decimal(0), "0");
    assert_eq!(decimal(90210), "90210");
}

#[test]
fn rows_enter_stay_or_leave() {
    let d = diff_columns(&strings(&["a", "b", "c"]), &strings(&["c", "d", "a"]));
    assert_eq!(d.enter, vec![1]);
    assert_eq!(d.update, vec![(2, 0), (0, 2)]);
    assert!(matches!(&d.exit[..], [RowKey::Key(Value::String(s))] if s == "b"));
    let d = diff_positional(2, 3);
    assert_eq!(d.enter, vec![2]);
    assert_eq!(d.update, vec![(0, 0), (1, 1)]);
    assert!(d.exit.is_empty());
}

#[test]
fn channels_hand_out_their_cells() {
    let c = numbers(&[1.0, 2.0]);
    assert_eq!(c.data_len(), Some(2));
    assert!(c.is_data() && !c.is_raw());
    assert!(matches!(c.raw(1), Value::Number(n) if n == num(2.0)));
    let c = raw_number(5.0);
    assert_eq!(c.data_len(), None);
    assert!(!c.is_data() && c.is_raw());
    assert!(matches!(c.raw(9), Value::Number(n) if n == num(5.0)));
    assert_eq!(numbers(&[1.0, 2.0]).emptied().data_len(), Some(0));
    assert_eq!(words(&["a"]).shared().data_len(), Some(1));
}

#[test]
fn scales_map_what_does_not_bypass_them() {
    let mut scales = ScaleOutputs::new();
    scales.bind_values("size".to_string(), scaled(&[10.0, 20.0]));
    let mut channels = Channels::new();
    channels.insert("size".to_string(), numbers(&[1.0, 2.0]));
    let src = Bound { channels: &channels, scales: &scales };
    assert_eq!(src.number_at("size", 1), Some(num(20.0)));
    assert_eq!(src.number_at("width", 1), None);
    assert_eq!(src.number_or("width", 1, num(3.0)), num(3.0));
    let mut channels = Channels::new();
    channels.insert("size".to_string(), raw_numbers(&[1.0, 2.0]));
    let src = Bound { channels: &channels, scales: &scales };
    assert_eq!(src.number_at("size", 1), Some(num(2.0)));
}

#[test]
fn picks_are_ids_or_pass_through() {
    let scales = ScaleOutputs::new();
    let mut channels = Channels::new();
    channels.insert("pick_id".to_string(), numbers(&[5.0, 5.0]));
    let src = Bound { channels: &channels, scales: &scales };
    assert_eq!(src.pick_at("pick_id", 0), PickId::Id(5));
    assert_eq!(src.pick_at("none", 0), PickId::Skip);
}

#[test]
fn words_name_caps_joins_and_sides() {
    let scales = ScaleOutputs::new();
    let mut channels = Channels::new();
    channels.insert("cap".to_string(), word("round"));
    channels.insert("join".to_string(), word("bevel"));
    channels.insert("italic".to_string(), word("oblique"));
    channels.insert("flag".to_string(), flag(true));
    channels.insert("ink".to_string(), ink(red()));
    channels.insert("name".to_string(), word("n"));
    let src = Bound { channels: &channels, scales: &scales };
    assert_eq!(src.cap_or("cap", 0, Cap::Butt), Cap::Round);
    assert_eq!(src.cap_or("none", 0, Cap::Square), Cap::Square);
    assert_eq!(src.join_or("join", 0, Join::Miter), Join::Bevel);
    assert!(src.italic_at("italic", 0));
    assert!(src.bool_or("flag", 0, false));
    assert_eq!(src.color_or("ink", 0, None), Some(red()));
    assert_eq!(src.color_or("none", 0, Some(red())), Some(red()));
    assert_eq!(src.string_at("name", 0).as_deref(), Some("n"));
    assert_eq!(src.align_at("none", 0), HAlign::Start);
    assert_eq!(
        src.paint_of(Some(red()), "none", 0),
        Some(Paint { color: red(), opacity: None })
    );
}

#[test]
fn an_outline_goes_onto_the_root_selector() {
    let mut base = StyleSheet::new(3);
    base.set(
        "strong",
        StyleDelta { text_stroke: None, text_stroke_width: None, rest: Arc::new(vec![]) },
    );
    let folded = base.with_outline(red(), num(2.0));
    let root = folded.get("base").expect("a root");
    assert_eq!(root.text_stroke, Some(red()));
    assert_eq!(root.text_stroke_width, Some(num(2.0)));
    assert!(folded.get("strong").is_some());
    let base = Arc::new(base);
    let mut sheets = OutlineSheets::new();
    let plain = sheets.resolve(&base, None, num(2.0));
    assert!(Arc::ptr_eq(&plain, &base));
    let a = sheets.resolve(&base, Some(red()), num(2.0));
    let b = sheets.resolve(&base, Some(red()), num(2.0));
    let c = sheets.resolve(&base, Some(red()), num(3.0));
    assert!(Arc::ptr_eq(&a, &b));
    assert!(!Arc::ptr_eq(&a, &c));
    let other = Arc::new(StyleSheet::new(4));
    let d = sheets.resolve(&other, Some(red()), num(2.0));
    assert!(d.get("strong").is_none() && d.get("base").is_some());
    // Whatever else was asked for, the sheet stays the same.
    assert!(Arc::ptr_eq(&a, &sheets.resolve(&base, Some(red()), num(2.0))));
    assert!(Arc::ptr_eq(&c, &sheets.resolve(&base, Some(red()), num(3.0))));
    assert!(base.get("base").is_none());
    sheets.clear();
    assert!(!Arc::ptr_eq(&a, &sheets.resolve(&base, Some(red()), num(2.0))));
}

#[test]
fn a_turn_in_panel_space_lands_where_the_layout_does() {
    // The layout turns about its own corner; in panel space the pivot moves
    // with it.
    let m = Measures::panel(0.0, 0.0, 100.0, 100.0, 96.0);
    let lit = |x: f64| Expr::Lit(num(x));
    let turn = Xform::RotateAbout {
        angle: lit(FRAC_PI_2),
        at: Point { x: lit(30.0), y: lit(40.0) },
    };
    let corner = Point { x: lit(10.0), y: lit(20.0) };
    let local = panel_space_transform(&turn, &corner);
    let p = (3.0, 7.0);
    let moved = turned(&local, p, &m);
    let landed = turned(&turn, (p.0 + 10.0, p.1 + 20.0), &m);
    assert!(near(moved.0 + 10.0, landed.0) && near(moved.1 + 20.0, landed.1));
    assert!(matches!(panel_space_transform(&Xform::Identity, &corner), Xform::Identity));
}
