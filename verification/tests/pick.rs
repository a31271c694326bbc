//! Pick paths: what a hit on a plot was a hit on.

use std::collections::HashSet;

use hephaestus::ids::{AxisId, GeomId};
use hephaestus::kind::{AXIS, COMPOSITION, GEOM, ITEM, LEGEND, PART, PLOT, REGION};
use hephaestus::pick::{
    PickPath, PickScope, PlotPart, PlotPath, axis_scope, composition_scope, geom_scope, item_scope,
    legend_scope, named_region_scope, part_scope, part_scope_for_channel, plot_scope, region_scope,
    theme_channel_side,
};
use hephaestus::slot::Slot;

fn path(scopes: &[PickScope]) -> PlotPath<'_> {
    PlotPath::new(PickPath { scopes })
}

#[test]
fn a_full_path_reads_back() {
    let scopes = [
        composition_scope("dashboard"),
        plot_scope("a", 2),
        region_scope(Slot::AxisLeft),
        axis_scope(Some(AxisId::new(7)), Some("price")),
        part_scope(PlotPart::AxisTickLabel),
        item_scope(3),
    ];
    let p = path(&scopes);
    assert_eq!(p.composition(), Some("dashboard"));
    assert_eq!(p.plot(), Some(("a", 2)));
    assert_eq!(p.region(), Some(Slot::AxisLeft));
    assert_eq!(p.region_name(), Some("axis_left"));
    assert_eq!(p.axis(), Some(AxisId(7)));
    assert_eq!(p.scale(), Some("price"));
    assert_eq!(p.part(), Some(PlotPart::AxisTickLabel));
    assert_eq!(p.part_channel(), None);
    assert_eq!(p.item(), Some(3));
    assert_eq!(p.geom(), None);
    assert_eq!(p.legend_block(), None);
    assert_eq!(p.raw().scopes.len(), 6);
}

#[test]
fn an_empty_path_says_nothing() {
    let p = path(&[]);
    assert_eq!(p.composition(), None);
    assert_eq!(p.plot(), None);
    assert_eq!(p.region(), None);
    assert_eq!(p.geom(), None);
    assert_eq!(p.axis(), None);
    assert_eq!(p.scale(), None);
    assert_eq!(p.legend_block(), None);
    assert_eq!(p.part(), None);
    assert_eq!(p.item(), None);
}

#[test]
fn the_innermost_scope_counts() {
    let scopes = [
        composition_scope("outer"),
        plot_scope("a", 0),
        composition_scope("inner"),
        plot_scope("b", 1),
        geom_scope(GeomId::new(4)),
    ];
    let p = path(&scopes);
    assert_eq!(p.composition(), Some("inner"));
    assert_eq!(p.plot(), Some(("b", 1)));
    assert_eq!(p.geom(), Some(GeomId(4)));
    assert_eq!(p.raw().find(COMPOSITION).and_then(|s| s.name()), Some("inner"));
}

#[test]
fn a_legend_names_its_scale() {
    let scopes = [legend_scope(1, "fill"), part_scope_for_channel(PlotPart::GridMajor, 1)];
    let p = path(&scopes);
    assert_eq!(p.legend_block(), Some(1));
    assert_eq!(p.scale(), Some("fill"));
    assert_eq!(p.part(), Some(PlotPart::GridMajor));
    assert_eq!(p.part_channel(), Some(1));
}

#[test]
fn an_axis_comes_before_a_legend() {
    let scopes = [axis_scope(None, Some("x")), legend_scope(1, "fill")];
    assert_eq!(path(&scopes).scale(), Some("x"));
    assert_eq!(path(&scopes).axis(), None);
}

#[test]
fn a_named_region_need_not_be_a_slot() {
    let scopes = [named_region_scope("inset")];
    assert_eq!(path(&scopes).region(), None);
    assert_eq!(path(&scopes).region_name(), Some("inset"));
}

#[test]
fn only_parts_and_items_can_be_hit() {
    assert!(part_scope(PlotPart::Title).target);
    assert!(item_scope(0).target);
    assert!(!plot_scope("a", 0).target);
    assert!(!geom_scope(GeomId(0)).target);
    let s = PickScope::target(PART).with_name("x").with_index(9);
    assert_eq!((s.name(), s.index()), (Some("x"), Some(9)));
}

#[test]
fn part_names_read_back() {
    let all = PlotPart::all();
    assert_eq!(all.len(), 23);
    for part in &all {
        assert_eq!(PlotPart::from_name(part.name()), Some(*part));
    }
    let names: HashSet<&str> = all.iter().map(|p| p.name()).collect();
    assert_eq!(names.len(), all.len());
    assert_eq!(PlotPart::from_name("no_such_part"), None);
}

#[test]
fn slot_names_read_back() {
    for slot in [
        Slot::Background,
        Slot::Panel,
        Slot::Title,
        Slot::Subtitle,
        Slot::Caption,
        Slot::AxisTop,
        Slot::AxisRight,
        Slot::AxisBottom,
        Slot::AxisLeft,
        Slot::AxisTopTitle,
        Slot::AxisRightTitle,
        Slot::AxisBottomTitle,
        Slot::AxisLeftTitle,
        Slot::LegendTop,
        Slot::LegendRight,
        Slot::LegendBottom,
        Slot::LegendLeft,
        Slot::StripTop,
        Slot::StripRight,
        Slot::StripBottom,
        Slot::StripLeft,
    ] {
        assert_eq!(Slot::from_name(slot.name()), Some(slot));
    }
    assert_eq!(Slot::from_name("no_such_slot"), None);
}

#[test]
fn axis_slots_have_a_channel_and_a_side() {
    assert_eq!(theme_channel_side(Slot::AxisBottom), Some((0, 0)));
    assert_eq!(theme_channel_side(Slot::AxisTopTitle), Some((0, 1)));
    assert_eq!(theme_channel_side(Slot::AxisLeft), Some((1, 0)));
    assert_eq!(theme_channel_side(Slot::AxisRightTitle), Some((1, 1)));
    assert_eq!(theme_channel_side(Slot::Panel), None);
}

#[test]
fn kinds_have_names_of_their_own() {
    let kinds = [COMPOSITION, PLOT, REGION, AXIS, LEGEND, GEOM, PART, ITEM];
    let names: HashSet<&str> = kinds.into_iter().collect();
    assert_eq!(names.len(), 8);
}
