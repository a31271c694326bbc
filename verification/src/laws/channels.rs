//! Which channels each geom reads, and what it takes to build one.

use vstd::prelude::*;

use crate::channel::{CatalogEntry, Channel, ChannelDecl, ExpectedOutput};
use crate::geom::state::{buildable, column_of_len, declarations, declares, in_catalog};
use crate::geom::{ribbon_bspline, segment, text, text_fit, text_path, wedge};
use crate::value::{number_in, DataColumn};

verus! {

/// Whether entry `i` of a catalog is about a channel.
pub open spec fn is_entry(
    catalog: Seq<CatalogEntry>,
    i: int,
    name: Seq<char>,
    out: ExpectedOutput,
) -> bool {
    &&& 0 <= i < catalog.len()
    &&& catalog[i].0@ == name
    &&& catalog[i].1 == out
}

/// Whether a geom reads channels, and what their scales are to make of data.
pub open spec fn reads(
    catalog: Seq<CatalogEntry>,
    names: Seq<&'static str>,
    out: ExpectedOutput,
) -> bool {
    forall|k: int|
        #![trigger names[k]]
        0 <= k < names.len() ==> exists|i: int| #[trigger] is_entry(catalog, i, names[k]@, out)
}

/// What a geom is built of: channels that it reads, columns with a cell for each
/// row, as many keys as rows, and ids to pick by that can be.
pub proof fn geoms_are_built_of_whole_rows(
    keys: Option<DataColumn>,
    channels: Map<Seq<char>, Channel>,
    n: nat,
    catalog: Seq<CatalogEntry>,
)
    requires
        buildable(keys, channels, n, catalog),
    ensures
        keys matches Some(c) ==> c.count() == n,
        forall|name: Seq<char>|
            #![trigger channels[name]]
            channels.contains_key(name) ==> {
                &&& exists|i: int| 0 <= i < catalog.len() && (#[trigger] catalog[i]).0@ == name
                &&& channels[name].column() matches Some(c) ==> c.count() == n
            },
        forall|i: int|
            #![trigger channels["pick_id"@].raw_at(i)]
            channels.contains_key("pick_id"@) && 0 <= i < n ==> {
                &&& number_in(channels["pick_id"@].raw_at(i)) matches Some(v)
                &&& exists|k: nat| #[trigger] v.is_pick_index(k)
            },
{
    assert forall|name: Seq<char>|
        #![trigger channels[name]]
        channels.contains_key(name) implies ({
        &&& exists|i: int| 0 <= i < catalog.len() && (#[trigger] catalog[i]).0@ == name
        &&& channels[name].column() matches Some(c) ==> c.count() == n
    }) by {
        assert(in_catalog(catalog, name));
    }
}

/// Every geom takes columns that place its rows: both ends of a line and both
/// corners of a rectangle, and for labels their texts.
pub proof fn rows_need_their_places(
    keys: Option<DataColumn>,
    channels: Map<Seq<char>, Channel>,
    n: nat,
)
    ensures
        ({
            let xy = column_of_len(channels, "x"@, n) && column_of_len(channels, "y"@, n);
            let ends = column_of_len(channels, "x2"@, n) && column_of_len(channels, "y2"@, n);
            let texts = column_of_len(channels, "text"@, n);
            &&& segment::can_build(keys, channels, n) <==> xy && ends && buildable(
                keys,
                channels,
                n,
                segment::catalog(),
            )
            &&& wedge::can_build(keys, channels, n) <==> xy && buildable(
                keys,
                channels,
                n,
                wedge::catalog(),
            )
            &&& text::can_build(keys, channels, n) <==> xy && texts && buildable(
                keys,
                channels,
                n,
                text::catalog(),
            )
            &&& text_fit::can_build(keys, channels, n) <==> xy && ends && texts && buildable(
                keys,
                channels,
                n,
                text_fit::catalog(),
            )
            &&& text_path::can_build(keys, channels, n) <==> xy && channels.contains_key("text"@)
                && buildable(keys, channels, n, text_path::catalog())
            &&& ribbon_bspline::can_build(keys, channels, n) <==> xy && (channels.contains_key(
                "x2"@,
            ) || channels.contains_key("y2"@)) && buildable(
                keys,
                channels,
                n,
                ribbon_bspline::catalog(),
            )
        }),
{
    assert(segment::required()[0] == "y" && segment::required()[1] == "x2"
        && segment::required()[2] == "y2");
    assert(text_fit::required()[0] == "y" && text_fit::required()[1] == "x2"
        && text_fit::required()[2] == "y2");
    assert(wedge::required()[0] == "y" && text::required()[0] == "y");
    assert(text_path::required()[0] == "y" && ribbon_bspline::required()[0] == "y");
}

/// Segments: the channels they read, what each of them holds, and that there are no
/// others.
pub proof fn segments_read_their_channels()
    ensures
        segment::catalog().len() == 32,
        reads(
            segment::catalog(),
            seq![
                "x", "y", "x2", "y2", "x_offset", "y_offset", "x2_offset", "y2_offset",
                "x_band", "y_band", "x2_band", "y2_band", "stroke_opacity", "linewidth",
                "dash_offset", "clip_start_radius", "clip_end_radius", "angle", "pick_id",
                "start_marker_size", "end_marker_size",
            ],
            ExpectedOutput::Numbers,
        ),
        reads(
            segment::catalog(),
            seq![
                "fill", "stroke", "start_marker_fill", "end_marker_fill",
            ],
            ExpectedOutput::Colors,
        ),
        reads(
            segment::catalog(),
            seq![
                "cap", "join", "start_marker", "end_marker",
            ],
            ExpectedOutput::Strings,
        ),
        exists|i: int| #[trigger] is_entry(segment::catalog(), i, "linetype"@, ExpectedOutput::Linetypes),
        reads(
            segment::catalog(),
            seq![
                "start_marker_invert", "end_marker_invert",
            ],
            ExpectedOutput::Any,
        ),
{
    let c = segment::catalog();
    assert(is_entry(c, 0, "x"@, ExpectedOutput::Numbers));
    assert(is_entry(c, 1, "y"@, ExpectedOutput::Numbers));
    assert(is_entry(c, 2, "x2"@, ExpectedOutput::Numbers));
    assert(is_entry(c, 3, "y2"@, ExpectedOutput::Numbers));
    assert(is_entry(c, 4, "x_offset"@, ExpectedOutput::Numbers));
    assert(is_entry(c, 5, "y_offset"@, ExpectedOutput::Numbers));
    assert(is_entry(c, 6, "x2_offset"@, ExpectedOutput::Numbers));
    assert(is_entry(c, 7, "y2_offset"@, ExpectedOutput::Numbers));
    assert(is_entry(c, 8, "x_band"@, ExpectedOutput::Numbers));
    assert(is_entry(c, 9, "y_band"@, ExpectedOutput::Numbers));
    assert(is_entry(c, 10, "x2_band"@, ExpectedOutput::Numbers));
    assert(is_entry(c, 11, "y2_band"@, ExpectedOutput::Numbers));
    assert(is_entry(c, 14, "stroke_opacity"@, ExpectedOutput::Numbers));
    assert(is_entry(c, 15, "linewidth"@, ExpectedOutput::Numbers));
    assert(is_entry(c, 17, "dash_offset"@, ExpectedOutput::Numbers));
    assert(is_entry(c, 20, "clip_start_radius"@, ExpectedOutput::Numbers));
    assert(is_entry(c, 21, "clip_end_radius"@, ExpectedOutput::Numbers));
    assert(is_entry(c, 22, "angle"@, ExpectedOutput::Numbers));
    assert(is_entry(c, 23, "pick_id"@, ExpectedOutput::Numbers));
    assert(is_entry(c, 26, "start_marker_size"@, ExpectedOutput::Numbers));
    assert(is_entry(c, 27, "end_marker_size"@, ExpectedOutput::Numbers));
    assert(is_entry(c, 12, "fill"@, ExpectedOutput::Colors));
    assert(is_entry(c, 13, "stroke"@, ExpectedOutput::Colors));
    assert(is_entry(c, 28, "start_marker_fill"@, ExpectedOutput::Colors));
    assert(is_entry(c, 29, "end_marker_fill"@, ExpectedOutput::Colors));
    assert(is_entry(c, 18, "cap"@, ExpectedOutput::Strings));
    assert(is_entry(c, 19, "join"@, ExpectedOutput::Strings));
    assert(is_entry(c, 24, "start_marker"@, ExpectedOutput::Strings));
    assert(is_entry(c, 25, "end_marker"@, ExpectedOutput::Strings));
    assert(is_entry(c, 16, "linetype"@, ExpectedOutput::Linetypes));
    assert(is_entry(c, 30, "start_marker_invert"@, ExpectedOutput::Any));
    assert(is_entry(c, 31, "end_marker_invert"@, ExpectedOutput::Any));
}

/// Wedges: the channels they read, what each of them holds, and that there are no
/// others.
pub proof fn wedges_read_their_channels()
    ensures
        wedge::catalog().len() == 22,
        reads(
            wedge::catalog(),
            seq![
                "x", "y", "x_offset", "y_offset", "x_band", "y_band", "radius", "radius2",
                "radius_band", "radius2_band", "theta", "theta2", "fill_opacity",
                "stroke_opacity", "linewidth", "dash_offset", "pick_id",
            ],
            ExpectedOutput::Numbers,
        ),
        reads(
            wedge::catalog(),
            seq![
                "fill", "stroke",
            ],
            ExpectedOutput::Colors,
        ),
        reads(
            wedge::catalog(),
            seq![
                "cap", "join",
            ],
            ExpectedOutput::Strings,
        ),
        exists|i: int| #[trigger] is_entry(wedge::catalog(), i, "linetype"@, ExpectedOutput::Linetypes),
{
    let c = wedge::catalog();
    assert(is_entry(c, 0, "x"@, ExpectedOutput::Numbers));
    assert(is_entry(c, 1, "y"@, ExpectedOutput::Numbers));
    assert(is_entry(c, 2, "x_offset"@, ExpectedOutput::Numbers));
    assert(is_entry(c, 3, "y_offset"@, ExpectedOutput::Numbers));
    assert(is_entry(c, 4, "x_band"@, ExpectedOutput::Numbers));
    assert(is_entry(c, 5, "y_band"@, ExpectedOutput::Numbers));
    assert(is_entry(c, 6, "radius"@, ExpectedOutput::Numbers));
    assert(is_entry(c, 7, "radius2"@, ExpectedOutput::Numbers));
    assert(is_entry(c, 8, "radius_band"@, ExpectedOutput::Numbers));
    assert(is_entry(c, 9, "radius2_band"@, ExpectedOutput::Numbers));
    assert(is_entry(c, 10, "theta"@, ExpectedOutput::Numbers));
    assert(is_entry(c, 11, "theta2"@, ExpectedOutput::Numbers));
    assert(is_entry(c, 14, "fill_opacity"@, ExpectedOutput::Numbers));
    assert(is_entry(c, 15, "stroke_opacity"@, ExpectedOutput::Numbers));
    assert(is_entry(c, 16, "linewidth"@, ExpectedOutput::Numbers));
    assert(is_entry(c, 18, "dash_offset"@, ExpectedOutput::Numbers));
    assert(is_entry(c, 21, "pick_id"@, ExpectedOutput::Numbers));
    assert(is_entry(c, 12, "fill"@, ExpectedOutput::Colors));
    assert(is_entry(c, 13, "stroke"@, ExpectedOutput::Colors));
    assert(is_entry(c, 19, "cap"@, ExpectedOutput::Strings));
    assert(is_entry(c, 20, "join"@, ExpectedOutput::Strings));
    assert(is_entry(c, 17, "linetype"@, ExpectedOutput::Linetypes));
}

/// Labels at points: the channels they read, what each of them holds, and that there are no
/// others.
pub proof fn labels_read_their_channels()
    ensures
        text::catalog().len() == 33,
        reads(
            text::catalog(),
            seq![
                "x", "y", "x_offset", "y_offset", "x_band", "y_band", "size", "weight",
                "letter_spacing", "text_linewidth", "anchor_x", "anchor_y", "fill_opacity",
                "width", "width_band", "bg_fill_opacity", "bg_stroke_opacity", "bg_linewidth",
                "bg_corner_radius", "bg_padding", "angle", "pick_id",
            ],
            ExpectedOutput::Numbers,
        ),
        reads(
            text::catalog(),
            seq![
                "text_stroke", "fill", "bg_fill", "bg_stroke",
            ],
            ExpectedOutput::Colors,
        ),
        reads(
            text::catalog(),
            seq![
                "text", "family", "justify_x",
            ],
            ExpectedOutput::Strings,
        ),
        reads(
            text::catalog(),
            seq![
                "italic", "underline", "strikethrough", "markdown",
            ],
            ExpectedOutput::Any,
        ),
{
    let c = text::catalog();
    assert(is_entry(c, 0, "x"@, ExpectedOutput::Numbers));
    assert(is_entry(c, 1, "y"@, ExpectedOutput::Numbers));
    assert(is_entry(c, 2, "x_offset"@, ExpectedOutput::Numbers));
    assert(is_entry(c, 3, "y_offset"@, ExpectedOutput::Numbers));
    assert(is_entry(c, 4, "x_band"@, ExpectedOutput::Numbers));
    assert(is_entry(c, 5, "y_band"@, ExpectedOutput::Numbers));
    assert(is_entry(c, 7, "size"@, ExpectedOutput::Numbers));
    assert(is_entry(c, 8, "weight"@, ExpectedOutput::Numbers));
    assert(is_entry(c, 11, "letter_spacing"@, ExpectedOutput::Numbers));
    assert(is_entry(c, 16, "text_linewidth"@, ExpectedOutput::Numbers));
    assert(is_entry(c, 17, "anchor_x"@, ExpectedOutput::Numbers));
    assert(is_entry(c, 18, "anchor_y"@, ExpectedOutput::Numbers));
    assert(is_entry(c, 20, "fill_opacity"@, ExpectedOutput::Numbers));
    assert(is_entry(c, 21, "width"@, ExpectedOutput::Numbers));
    assert(is_entry(c, 22, "width_band"@, ExpectedOutput::Numbers));
    assert(is_entry(c, 24, "bg_fill_opacity"@, ExpectedOutput::Numbers));
    assert(is_entry(c, 26, "bg_stroke_opacity"@, ExpectedOutput::Numbers));
    assert(is_entry(c, 27, "bg_linewidth"@, ExpectedOutput::Numbers));
    assert(is_entry(c, 28, "bg_corner_radius"@, ExpectedOutput::Numbers));
    assert(is_entry(c, 29, "bg_padding"@, ExpectedOutput::Numbers));
    assert(is_entry(c, 30, "angle"@, ExpectedOutput::Numbers));
    assert(is_entry(c, 32, "pick_id"@, ExpectedOutput::Numbers));
    assert(is_entry(c, 15, "text_stroke"@, ExpectedOutput::Colors));
    assert(is_entry(c, 19, "fill"@, ExpectedOutput::Colors));
    assert(is_entry(c, 23, "bg_fill"@, ExpectedOutput::Colors));
    assert(is_entry(c, 25, "bg_stroke"@, ExpectedOutput::Colors));
    assert(is_entry(c, 6, "text"@, ExpectedOutput::Strings));
    assert(is_entry(c, 10, "family"@, ExpectedOutput::Strings));
    assert(is_entry(c, 31, "justify_x"@, ExpectedOutput::Strings));
    assert(is_entry(c, 9, "italic"@, ExpectedOutput::Any));
    assert(is_entry(c, 12, "underline"@, ExpectedOutput::Any));
    assert(is_entry(c, 13, "strikethrough"@, ExpectedOutput::Any));
    assert(is_entry(c, 14, "markdown"@, ExpectedOutput::Any));
}

/// Labels in rectangles: the channels they read, what each of them holds, and that there are no
/// others.
pub proof fn fitted_labels_read_their_channels()
    ensures
        text_fit::catalog().len() == 37,
        reads(
            text_fit::catalog(),
            seq![
                "x", "y", "x2", "y2", "x_offset", "y_offset", "x2_offset", "y2_offset",
                "x_band", "y_band", "x2_band", "y2_band", "weight", "tracking",
                "text_linewidth", "min_font_size", "max_font_size", "fill_opacity",
                "bg_fill_opacity", "bg_stroke_opacity", "bg_linewidth", "bg_corner_radius",
                "bg_padding", "angle", "pick_id",
            ],
            ExpectedOutput::Numbers,
        ),
        reads(
            text_fit::catalog(),
            seq![
                "text_stroke", "fill", "bg_fill", "bg_stroke",
            ],
            ExpectedOutput::Colors,
        ),
        reads(
            text_fit::catalog(),
            seq![
                "text", "family", "justify_x", "justify_y",
            ],
            ExpectedOutput::Strings,
        ),
        reads(
            text_fit::catalog(),
            seq![
                "italic", "markdown", "underline", "strikethrough",
            ],
            ExpectedOutput::Any,
        ),
{
    let c = text_fit::catalog();
    assert(is_entry(c, 0, "x"@, ExpectedOutput::Numbers));
    assert(is_entry(c, 1, "y"@, ExpectedOutput::Numbers));
    assert(is_entry(c, 2, "x2"@, ExpectedOutput::Numbers));
    assert(is_entry(c, 3, "y2"@, ExpectedOutput::Numbers));
    assert(is_entry(c, 4, "x_offset"@, ExpectedOutput::Numbers));
    assert(is_entry(c, 5, "y_offset"@, ExpectedOutput::Numbers));
    assert(is_entry(c, 6, "x2_offset"@, ExpectedOutput::Numbers));
    assert(is_entry(c, 7, "y2_offset"@, ExpectedOutput::Numbers));
    assert(is_entry(c, 8, "x_band"@, ExpectedOutput::Numbers));
    assert(is_entry(c, 9, "y_band"@, ExpectedOutput::Numbers));
    assert(is_entry(c, 10, "x2_band"@, ExpectedOutput::Numbers));
    assert(is_entry(c, 11, "y2_band"@, ExpectedOutput::Numbers));
    assert(is_entry(c, 14, "weight"@, ExpectedOutput::Numbers));
    assert(is_entry(c, 16, "tracking"@, ExpectedOutput::Numbers));
    assert(is_entry(c, 21, "text_linewidth"@, ExpectedOutput::Numbers));
    assert(is_entry(c, 22, "min_font_size"@, ExpectedOutput::Numbers));
    assert(is_entry(c, 23, "max_font_size"@, ExpectedOutput::Numbers));
    assert(is_entry(c, 25, "fill_opacity"@, ExpectedOutput::Numbers));
    assert(is_entry(c, 27, "bg_fill_opacity"@, ExpectedOutput::Numbers));
    assert(is_entry(c, 29, "bg_stroke_opacity"@, ExpectedOutput::Numbers));
    assert(is_entry(c, 30, "bg_linewidth"@, ExpectedOutput::Numbers));
    assert(is_entry(c, 31, "bg_corner_radius"@, ExpectedOutput::Numbers));
    assert(is_entry(c, 32, "bg_padding"@, ExpectedOutput::Numbers));
    assert(is_entry(c, 35, "angle"@, ExpectedOutput::Numbers));
    assert(is_entry(c, 36, "pick_id"@, ExpectedOutput::Numbers));
    assert(is_entry(c, 20, "text_stroke"@, ExpectedOutput::Colors));
    assert(is_entry(c, 24, "fill"@, ExpectedOutput::Colors));
    assert(is_entry(c, 26, "bg_fill"@, ExpectedOutput::Colors));
    assert(is_entry(c, 28, "bg_stroke"@, ExpectedOutput::Colors));
    assert(is_entry(c, 12, "text"@, ExpectedOutput::Strings));
    assert(is_entry(c, 13, "family"@, ExpectedOutput::Strings));
    assert(is_entry(c, 33, "justify_x"@, ExpectedOutput::Strings));
    assert(is_entry(c, 34, "justify_y"@, ExpectedOutput::Strings));
    assert(is_entry(c, 15, "italic"@, ExpectedOutput::Any));
    assert(is_entry(c, 17, "markdown"@, ExpectedOutput::Any));
    assert(is_entry(c, 18, "underline"@, ExpectedOutput::Any));
    assert(is_entry(c, 19, "strikethrough"@, ExpectedOutput::Any));
}

/// Labels along curves: the channels they read, what each of them holds, and that there are no
/// others.
pub proof fn path_labels_read_their_channels()
    ensures
        text_path::catalog().len() == 25,
        reads(
            text_path::catalog(),
            seq![
                "x", "y", "x_offset", "y_offset", "x_band", "y_band", "size", "weight",
                "tracking", "text_linewidth", "fill_opacity", "offset", "justify_x", "anchor_y",
                "angle", "pick_id",
            ],
            ExpectedOutput::Numbers,
        ),
        reads(
            text_path::catalog(),
            seq![
                "text_stroke", "fill",
            ],
            ExpectedOutput::Colors,
        ),
        reads(
            text_path::catalog(),
            seq![
                "text", "family",
            ],
            ExpectedOutput::Strings,
        ),
        reads(
            text_path::catalog(),
            seq![
                "italic", "markdown", "underline", "strikethrough", "upright",
            ],
            ExpectedOutput::Any,
        ),
{
    let c = text_path::catalog();
    assert(is_entry(c, 0, "x"@, ExpectedOutput::Numbers));
    assert(is_entry(c, 1, "y"@, ExpectedOutput::Numbers));
    assert(is_entry(c, 2, "x_offset"@, ExpectedOutput::Numbers));
    assert(is_entry(c, 3, "y_offset"@, ExpectedOutput::Numbers));
    assert(is_entry(c, 4, "x_band"@, ExpectedOutput::Numbers));
    assert(is_entry(c, 5, "y_band"@, ExpectedOutput::Numbers));
    assert(is_entry(c, 7, "size"@, ExpectedOutput::Numbers));
    assert(is_entry(c, 8, "weight"@, ExpectedOutput::Numbers));
    assert(is_entry(c, 11, "tracking"@, ExpectedOutput::Numbers));
    assert(is_entry(c, 16, "text_linewidth"@, ExpectedOutput::Numbers));
    assert(is_entry(c, 18, "fill_opacity"@, ExpectedOutput::Numbers));
    assert(is_entry(c, 19, "offset"@, ExpectedOutput::Numbers));
    assert(is_entry(c, 20, "justify_x"@, ExpectedOutput::Numbers));
    assert(is_entry(c, 22, "anchor_y"@, ExpectedOutput::Numbers));
    assert(is_entry(c, 23, "angle"@, ExpectedOutput::Numbers));
    assert(is_entry(c, 24, "pick_id"@, ExpectedOutput::Numbers));
    assert(is_entry(c, 15, "text_stroke"@, ExpectedOutput::Colors));
    assert(is_entry(c, 17, "fill"@, ExpectedOutput::Colors));
    assert(is_entry(c, 6, "text"@, ExpectedOutput::Strings));
    assert(is_entry(c, 10, "family"@, ExpectedOutput::Strings));
    assert(is_entry(c, 9, "italic"@, ExpectedOutput::Any));
    assert(is_entry(c, 12, "markdown"@, ExpectedOutput::Any));
    assert(is_entry(c, 13, "underline"@, ExpectedOutput::Any));
    assert(is_entry(c, 14, "strikethrough"@, ExpectedOutput::Any));
    assert(is_entry(c, 21, "upright"@, ExpectedOutput::Any));
}

/// Bands: the channels they read, what each of them holds, and that there are no
/// others.
pub proof fn bands_read_their_channels()
    ensures
        ribbon_bspline::catalog().len() == 41,
        reads(
            ribbon_bspline::catalog(),
            seq![
                "x", "y", "x2", "y2", "degree", "alpha", "pick_id", "linewidth", "dash_offset",
                "clip_start_radius", "clip_end_radius", "start_marker_size", "end_marker_size",
                "linewidth2", "dash_offset2", "clip_start_radius2", "clip_end_radius2",
                "start_marker_size2", "end_marker_size2",
            ],
            ExpectedOutput::Numbers,
        ),
        reads(
            ribbon_bspline::catalog(),
            seq![
                "fill", "stroke", "start_marker_fill", "end_marker_fill", "stroke2",
                "start_marker_fill2", "end_marker_fill2",
            ],
            ExpectedOutput::Colors,
        ),
        reads(
            ribbon_bspline::catalog(),
            seq![
                "interpolation", "cap", "join", "start_marker", "end_marker", "cap2", "join2",
                "start_marker2", "end_marker2",
            ],
            ExpectedOutput::Strings,
        ),
        reads(
            ribbon_bspline::catalog(),
            seq![
                "linetype", "linetype2",
            ],
            ExpectedOutput::Linetypes,
        ),
        reads(
            ribbon_bspline::catalog(),
            seq![
                "start_marker_invert", "end_marker_invert", "start_marker_invert2",
                "end_marker_invert2",
            ],
            ExpectedOutput::Any,
        ),
{
    let c = ribbon_bspline::catalog();
    assert(is_entry(c, 0, "x"@, ExpectedOutput::Numbers));
    assert(is_entry(c, 1, "y"@, ExpectedOutput::Numbers));
    assert(is_entry(c, 2, "x2"@, ExpectedOutput::Numbers));
    assert(is_entry(c, 3, "y2"@, ExpectedOutput::Numbers));
    assert(is_entry(c, 4, "degree"@, ExpectedOutput::Numbers));
    assert(is_entry(c, 7, "alpha"@, ExpectedOutput::Numbers));
    assert(is_entry(c, 8, "pick_id"@, ExpectedOutput::Numbers));
    assert(is_entry(c, 10, "linewidth"@, ExpectedOutput::Numbers));
    assert(is_entry(c, 12, "dash_offset"@, ExpectedOutput::Numbers));
    assert(is_entry(c, 15, "clip_start_radius"@, ExpectedOutput::Numbers));
    assert(is_entry(c, 16, "clip_end_radius"@, ExpectedOutput::Numbers));
    assert(is_entry(c, 19, "start_marker_size"@, ExpectedOutput::Numbers));
    assert(is_entry(c, 20, "end_marker_size"@, ExpectedOutput::Numbers));
    assert(is_entry(c, 26, "linewidth2"@, ExpectedOutput::Numbers));
    assert(is_entry(c, 28, "dash_offset2"@, ExpectedOutput::Numbers));
    assert(is_entry(c, 31, "clip_start_radius2"@, ExpectedOutput::Numbers));
    assert(is_entry(c, 32, "clip_end_radius2"@, ExpectedOutput::Numbers));
    assert(is_entry(c, 35, "start_marker_size2"@, ExpectedOutput::Numbers));
    assert(is_entry(c, 36, "end_marker_size2"@, ExpectedOutput::Numbers));
    assert(is_entry(c, 6, "fill"@, ExpectedOutput::Colors));
    assert(is_entry(c, 9, "stroke"@, ExpectedOutput::Colors));
    assert(is_entry(c, 21, "start_marker_fill"@, ExpectedOutput::Colors));
    assert(is_entry(c, 22, "end_marker_fill"@, ExpectedOutput::Colors));
    assert(is_entry(c, 25, "stroke2"@, ExpectedOutput::Colors));
    assert(is_entry(c, 37, "start_marker_fill2"@, ExpectedOutput::Colors));
    assert(is_entry(c, 38, "end_marker_fill2"@, ExpectedOutput::Colors));
    assert(is_entry(c, 5, "interpolation"@, ExpectedOutput::Strings));
    assert(is_entry(c, 13, "cap"@, ExpectedOutput::Strings));
    assert(is_entry(c, 14, "join"@, ExpectedOutput::Strings));
    assert(is_entry(c, 17, "start_marker"@, ExpectedOutput::Strings));
    assert(is_entry(c, 18, "end_marker"@, ExpectedOutput::Strings));
    assert(is_entry(c, 29, "cap2"@, ExpectedOutput::Strings));
    assert(is_entry(c, 30, "join2"@, ExpectedOutput::Strings));
    assert(is_entry(c, 33, "start_marker2"@, ExpectedOutput::Strings));
    assert(is_entry(c, 34, "end_marker2"@, ExpectedOutput::Strings));
    assert(is_entry(c, 11, "linetype"@, ExpectedOutput::Linetypes));
    assert(is_entry(c, 27, "linetype2"@, ExpectedOutput::Linetypes));
    assert(is_entry(c, 23, "start_marker_invert"@, ExpectedOutput::Any));
    assert(is_entry(c, 24, "end_marker_invert"@, ExpectedOutput::Any));
    assert(is_entry(c, 39, "start_marker_invert2"@, ExpectedOutput::Any));
    assert(is_entry(c, 40, "end_marker_invert2"@, ExpectedOutput::Any));
}

proof fn declared_among_the_first(
    channels: Map<Seq<char>, Channel>,
    catalog: Seq<CatalogEntry>,
    n: nat,
    d: ChannelDecl,
)
    requires
        n <= catalog.len(),
    ensures
        declarations(channels, catalog, n).contains(d) == (exists|i: int|
            0 <= i < n && is_declared_by(d, #[trigger] catalog[i], channels)),
    decreases n,
{
    if n > 0 {
        let m = (n - 1) as nat;
        declared_among_the_first(channels, catalog, m, d);
        let before = declarations(channels, catalog, m);
        let all = declarations(channels, catalog, n);
        if before.contains(d) {
            let k = choose|k: int| 0 <= k < before.len() && before[k] == d;
            assert(all[k] == d);
        }
        if all.contains(d) {
            let k = choose|k: int| 0 <= k < all.len() && all[k] == d;
            if k < before.len() {
                assert(before[k] == d);
            } else {
                assert(is_declared_by(d, catalog[n - 1], channels));
            }
        }
        if is_declared_by(d, catalog[n - 1], channels) {
            assert(all[before.len() as int] == d);
        }
    }
}

/// Whether a declaration is the one of a channel that is there: its name, whether
/// it varies by row, and what its scale is to make of data.
pub open spec fn is_declared_by(
    d: ChannelDecl,
    entry: CatalogEntry,
    channels: Map<Seq<char>, Channel>,
) -> bool {
    &&& channels.contains_key(entry.0@)
    &&& d.name == entry.0
    &&& d.data_bound == (channels[entry.0@] is Data || channels[entry.0@] is RawData)
    &&& d.expected_output == entry.1
}

/// A geom declares the channels that it was given and no others.
pub proof fn given_channels_are_declared(
    r: Seq<ChannelDecl>,
    channels: Map<Seq<char>, Channel>,
    catalog: Seq<CatalogEntry>,
    d: ChannelDecl,
)
    requires
        declares(r, channels, catalog),
    ensures
        r.contains(d) == (exists|i: int|
            0 <= i < catalog.len() && is_declared_by(d, #[trigger] catalog[i], channels)),
{
    let all = declarations(channels, catalog, catalog.len());
    declared_among_the_first(channels, catalog, catalog.len(), d);
    r.to_multiset_ensures();
    all.to_multiset_ensures();
    assert(r.contains(d) == r.to_multiset().contains(d));
    assert(all.contains(d) == all.to_multiset().contains(d));
}

} // verus!
