//! What every geom holds: keys, channels, and the diff against the frame
//! before.

use std::sync::Arc;

use hephaestus::channel::{CatalogEntry, Channel, ChannelDecl, Channels, ExpectedOutput, Keys};
use hephaestus::diff::RowKey;
use hephaestus::geom::error::BuildError;
use hephaestus::geom::state::{
    GeomState, KeysStrategy, filter_declared, finalize_state,
    require_data_column, require_x_and_siblings, validate_channel_lengths, validate_known_channels,
    validate_pick_id_channel,
};
use hephaestus::marks::{build_marks, first_rows};
use hephaestus::num::Num;
use hephaestus::value::{Color, DataColumn, Value};

/// The number `x`.
fn num(x: f64) -> Num {
    Num::from_bits(x.to_bits())
}

/// A column of numbers, mapped by the channel's scale.
fn numbers(xs: &[f64]) -> Channel {
    Channel::Data(DataColumn::F64(Arc::new(xs.iter().map(|x| num(*x)).collect())))
}

/// One number for every row.
fn number(x: f64) -> Channel {
    Channel::Constant(Value::Number(num(x)))
}

/// A column of strings.
fn words(xs: &[&str]) -> Channel {
    Channel::Data(DataColumn::String(Arc::new(xs.iter().map(|x| x.to_string()).collect())))
}

/// One string for every row.
fn word(x: &str) -> Channel {
    Channel::Constant(Value::String(x.to_string()))
}

/// A colour by its parts.
fn rgba(r: f32, g: f32, b: f32, a: f32) -> Color {
    Color { r: r.to_bits(), g: g.to_bits(), b: b.to_bits(), a: a.to_bits() }
}

fn red() -> Color {
    rgba(1.0, 0.0, 0.0, 1.0)
}

/// One colour for every row.
fn ink(c: Color) -> Channel {
    Channel::Constant(Value::Color(c))
}

/// The geom, or a panic with the reason why there is none.
fn built<T>(r: Result<T, BuildError>) -> T {
    match r {
        Ok(g) => g,
        Err(e) => panic!("{}", e.message("?")),
    }
}

/// The names of the declared channels.
fn names_of(decls: &[ChannelDecl]) -> Vec<&str> {
    decls.iter().map(|d| d.name).collect()
}

fn catalog() -> [CatalogEntry; 4] {
    [
        ("x", ExpectedOutput::Numbers),
        ("y", ExpectedOutput::Numbers),
        ("fill", ExpectedOutput::Colors),
        ("pick_id", ExpectedOutput::Numbers),
    ]
}

fn channels(entries: Vec<(&str, Channel)>) -> Channels {
    let mut m = Channels::new();
    for (name, channel) in entries {
        m.insert(name.to_string(), channel);
    }
    m
}

fn xy(n: usize) -> Channels {
    channels(vec![("x", numbers(&vec![0.0; n])), ("y", numbers(&vec![0.0; n]))])
}

fn strings(xs: &[&str]) -> DataColumn {
    DataColumn::String(Arc::new(xs.iter().map(|x| x.to_string()).collect()))
}

fn finalize(ch: Channels, n: usize, strategy: KeysStrategy) -> GeomState {
    built(finalize_state(None, ch, n, strategy, &catalog(), "TestGeom"))
}

#[test]
#[should_panic(expected = "unknown channel \"colour\" — not declared by this geom")]
fn finalize_state_rejects_a_channel_the_geom_does_not_declare() {
    let mut ch = xy(2);
    ch.insert("colour".to_string(), number(1.0));
    finalize(ch, 2, KeysStrategy::PerRow);
}

#[test]
#[should_panic(expected = "unknown channels \"colour\", \"shape\"")]
fn finalize_state_lists_every_unknown_channel_sorted() {
    let mut ch = xy(2);
    ch.insert("shape".to_string(), number(1.0));
    ch.insert("colour".to_string(), number(1.0));
    finalize(ch, 2, KeysStrategy::PerRow);
}

#[test]
#[should_panic(expected = "\"y\" length 2 does not match row count 3")]
fn finalize_state_rejects_a_short_data_column() {
    let ch = channels(vec![("x", numbers(&[0.0; 3])), ("y", numbers(&[0.0; 2]))]);
    finalize(ch, 3, KeysStrategy::PerRow);
}

#[test]
#[should_panic(expected = "\"pick_id\" data column must be a non-negative integer")]
fn finalize_state_rejects_a_fractional_pick_id() {
    let mut ch = xy(2);
    ch.insert("pick_id".to_string(), numbers(&[1.0, 2.5]));
    finalize(ch, 2, KeysStrategy::PerRow);
}

#[test]
#[should_panic(expected = "missing required channel \"x\"")]
fn require_data_column_reports_a_missing_channel() {
    built(require_data_column("x", &Channels::new(), "TestGeom"));
}

#[test]
#[should_panic(expected = "\"x\" must be data, not constant")]
fn require_data_column_rejects_a_constant_where_a_column_is_needed() {
    let ch = channels(vec![("x", number(1.0))]);
    built(require_data_column("x", &ch, "TestGeom"));
}

#[test]
#[should_panic(expected = "\"y\" length 1 does not match \"x\" length 3")]
fn require_x_and_siblings_rejects_a_sibling_of_a_different_length() {
    let ch = channels(vec![("x", numbers(&[0.0; 3])), ("y", numbers(&[0.0; 1]))]);
    built(require_x_and_siblings(&ch, &["y"], "TestGeom"));
}

#[test]
#[should_panic(expected = "keys length 2 does not match row count 3")]
fn from_builder_rejects_a_key_column_of_the_wrong_length() {
    built(GeomState::from_builder(
        Some(strings(&["a", "b"])),
        xy(3),
        3,
        KeysStrategy::PerRow,
        Vec::new(),
    ));
}

#[test]
#[should_panic(expected = "\"fill\" length 4 does not match row count 2")]
fn set_rejects_a_column_that_does_not_match_the_row_count() {
    let mut state = finalize(xy(2), 2, KeysStrategy::PerRow);
    built(state.set("fill".to_string(), numbers(&[0.0, 1.0, 2.0, 3.0])));
}

#[test]
fn per_row_strategy_synthesises_positional_keys() {
    let state = finalize(xy(3), 3, KeysStrategy::PerRow);
    match &state.keys {
        Keys::Positional(n) => assert_eq!(*n, 3),
        Keys::Explicit(_) => panic!("expected positional keys"),
    }
    assert_eq!(state.len(), 3);
    assert!(!state.is_empty());
}

#[test]
fn one_mark_strategy_synthesises_a_single_shared_key() {
    let state = finalize(xy(3), 3, KeysStrategy::OneMark);
    match &state.keys {
        Keys::Explicit(col) => {
            assert_eq!(col.len(), 3);
            assert!(col.get(0).key_eq(&col.get(2)));
        }
        Keys::Positional(_) => panic!("expected an explicit placeholder column"),
    }
    assert_eq!(build_marks(&state.keys).len(), 1);
}

#[test]
fn a_supplied_key_column_survives_either_strategy() {
    for strategy in [KeysStrategy::PerRow, KeysStrategy::OneMark] {
        let keys = strings(&["a", "b"]);
        let state = built(GeomState::from_builder(Some(keys), xy(2), 2, strategy, Vec::new()));
        match &state.keys {
            Keys::Explicit(col) => {
                assert!(col.get(0).key_eq(&Value::String("a".to_string())));
            }
            Keys::Positional(_) => panic!("supplied keys must not be replaced"),
        }
    }
}

#[test]
fn a_fresh_state_diffs_as_all_enter() {
    let mut state = finalize(xy(3), 3, KeysStrategy::PerRow);
    assert!(state.dirty);
    state.rebuild_diff_against_previous();
    assert_eq!(state.enter, vec![0, 1, 2]);
    assert!(state.update.is_empty());
    assert!(state.exit.is_empty());
    assert!(!state.dirty);
}

#[test]
fn filter_declared_keeps_supplied_catalog_entries_in_name_order() {
    let mut ch = xy(2);
    ch.insert("fill".to_string(), ink(red()));
    let state = finalize(ch, 2, KeysStrategy::PerRow);
    assert_eq!(names_of(&state.declared), vec!["fill", "x", "y"]);
    let fill = state.declared.iter().find(|d| d.name == "fill").unwrap();
    assert!(!fill.data_bound, "a constant channel is not data-bound");
    assert_eq!(fill.expected_output, ExpectedOutput::Colors);
    let x = state.declared.iter().find(|d| d.name == "x").unwrap();
    assert!(x.data_bound);
}

#[test]
fn a_second_frame_diffs_by_key() {
    let keyed = |keys: &[&str]| {
        let n = keys.len();
        built(GeomState::from_builder(Some(strings(keys)), xy(n), n, KeysStrategy::PerRow, vec![]))
    };
    let mut state = keyed(&["a", "b", "c"]);
    state.rebuild_diff_against_previous();
    state.replace_current_with(keyed(&["c", "d", "a"]));
    assert!(state.dirty);
    state.rebuild_diff_against_previous();
    assert_eq!(state.enter, vec![1]);
    assert_eq!(state.update, vec![(2, 0), (0, 2)]);
    assert_eq!(state.exit.len(), 1);
    assert!(matches!(&state.exit[0], RowKey::Key(Value::String(s)) if s == "b"));
    assert!(!state.dirty);
}

#[test]
fn rows_without_keys_diff_by_position() {
    let mut state = finalize(xy(3), 3, KeysStrategy::PerRow);
    state.rebuild_diff_against_previous();
    state.replace_current_with(finalize(xy(2), 2, KeysStrategy::PerRow));
    state.rebuild_diff_against_previous();
    assert!(state.enter.is_empty());
    assert_eq!(state.update, vec![(0, 0), (1, 1)]);
    assert_eq!(state.exit.len(), 1);
    assert!(matches!(state.exit[0], RowKey::Position(2)));
}

#[test]
fn marks_diff_by_the_keys_of_their_first_rows() {
    let keyed = |keys: &[&str]| {
        let n = keys.len();
        built(GeomState::from_builder(Some(strings(keys)), xy(n), n, KeysStrategy::OneMark, vec![]))
    };
    let before = keyed(&["a", "a", "b"]);
    let prev = first_rows(&build_marks(&before.keys));
    assert_eq!(prev, vec![0, 2]);
    let mut state = keyed(&["a", "a", "b"]);
    state.replace_current_with(keyed(&["b", "c", "c"]));
    let next = first_rows(&build_marks(&state.keys));
    assert_eq!(next, vec![0, 1]);
    state.rebuild_grouped_diff(&prev, &next);
    assert_eq!(state.enter, vec![1]);
    assert_eq!(state.update, vec![(1, 0)]);
    assert_eq!(state.exit.len(), 1);
    assert!(matches!(&state.exit[0], RowKey::Key(Value::String(s)) if s == "a"));
    // Clearing the mark is left to the caller.
    assert!(state.dirty);
}

#[test]
fn marks_are_runs_of_one_key() {
    let marks = build_marks(&Keys::Explicit(strings(&["a", "a", "b", "a"])));
    let rows: Vec<Vec<usize>> = marks.iter().map(|k| k.rows.clone()).collect();
    assert_eq!(rows, vec![vec![0, 1], vec![2], vec![3]]);
    let marks = build_marks(&Keys::Positional(3));
    let rows: Vec<Vec<usize>> = marks.iter().map(|k| k.rows.clone()).collect();
    assert_eq!(rows, vec![vec![0], vec![1], vec![2]]);
    assert!(build_marks(&Keys::Positional(0)).is_empty());
}

#[test]
fn pick_ids_are_whole_and_fit_a_pick_buffer() {
    for (x, fine) in [
        (0.0, true),
        (16777215.0, true),
        (16777216.0, false),
        (-1.0, false),
        (0.5, false),
        (f64::NAN, false),
        (f64::INFINITY, false),
    ] {
        let ch = channels(vec![("pick_id", number(x))]);
        let r = validate_pick_id_channel(&ch, "TestGeom");
        assert_eq!(r.is_ok(), fine, "{}", x);
        if let Err(e) = r {
            assert!(matches!(e, BuildError::PickIdRange { from_data: false, .. }));
            assert_eq!(
                e.message("it"),
                "TestGeom::build: \"pick_id\" constant must be a non-negative integer ≤ 0xFFFFFF, got it"
            );
        }
    }
    let ch = channels(vec![("pick_id", word("seven"))]);
    let e = validate_pick_id_channel(&ch, "TestGeom").unwrap_err();
    assert!(matches!(e, BuildError::PickIdKind { from_data: false, .. }));
    assert!(e.message("a string").contains("\"pick_id\" constant must be numeric"));
    assert!(e.message("a string").ends_with("got a string"));
    let ch = channels(vec![("pick_id", words(&["seven"]))]);
    let e = validate_pick_id_channel(&ch, "TestGeom").unwrap_err();
    assert!(matches!(e, BuildError::PickIdKind { from_data: true, .. }));
    assert!(validate_pick_id_channel(&Channels::new(), "TestGeom").is_ok());
}

#[test]
fn lengths_are_checked_of_columns_alone() {
    let mut ch = xy(2);
    ch.insert("fill".to_string(), ink(red()));
    assert!(validate_channel_lengths(&ch, 2, "TestGeom").is_ok());
    let e = validate_channel_lengths(&ch, 3, "TestGeom").unwrap_err();
    assert!(matches!(e, BuildError::ChannelLength { len: 2, rows: 3, .. }));
}

#[test]
fn known_channels_pass() {
    assert!(validate_known_channels(&xy(1), &catalog(), "TestGeom").is_ok());
    let ch = channels(vec![("hue", number(1.0))]);
    let e = validate_known_channels(&ch, &catalog(), "TestGeom").unwrap_err();
    assert_eq!(
        e.message(""),
        "TestGeom::build: unknown channel \"hue\" — not declared by this geom"
    );
}

#[test]
fn declared_channels_come_in_name_order() {
    let mut ch = xy(2);
    ch.insert("pick_id".to_string(), number(7.0));
    let decls = filter_declared(&ch, &catalog());
    assert_eq!(names_of(&decls), vec!["pick_id", "x", "y"]);
}

#[test]
fn a_state_takes_no_unknown_channel() {
    let mut ch = xy(2);
    ch.insert("colour".to_string(), number(1.0));
    let e = finalize_state(None, ch, 2, KeysStrategy::PerRow, &catalog(), "TestGeom")
        .map(|_| ())
        .unwrap_err();
    let message = e.message("");
    assert!(message.contains("unknown channel"), "{}", message);
    assert!(message.contains("\"colour\""), "{}", message);
}

#[test]
fn siblings_are_required_in_order() {
    let ch = xy(3);
    assert_eq!(built(require_x_and_siblings(&ch, &["y"], "TestGeom")), 3);
    let e = require_x_and_siblings(&ch, &["y", "y2"], "TestGeom").unwrap_err();
    assert_eq!(e.message(""), "TestGeom::build: missing required channel \"y2\"");
}

#[test]
fn setting_a_channel_marks_the_state() {
    let mut s = finalize(xy(2), 2, KeysStrategy::PerRow);
    s.rebuild_diff_against_previous();
    assert!(!s.dirty);
    built(s.set("fill".to_string(), ink(red())));
    assert!(s.dirty);
    assert!(s.channels.contains("fill"));
}
