//! Labels, one for each row.
//!
//! A label is placed by `x` and `y`, like any point. `anchor_x` and `anchor_y`
//! say which point of the label lies there, as fractions of its width and
//! height: `0` and `0` its top left corner, `1` and `1` its bottom right one. A
//! label with a background is placed with its background.
//!
//! Lines are broken where `width` (points) or `width_band` (a fraction of the
//! band that the row lies in) says how wide they may be. The two add up.
//!
//! The background is padded on all sides. Above the text there is at least as
//! much padding as the last line reaches below its baseline, and below the text
//! there is none where the padding is less than that.

use std::sync::Arc;
use vstd::prelude::*;

use crate::channel::{CatalogEntry, Channel, ChannelDecl, ExpectedOutput, Keys};
use crate::expr::{
    c_and, c_finite, c_panel_open, c_positive, e_add, e_int, e_mul, e_panel_w, e_px, e_sub, value,
    Cond, Env, Expr, Quantity,
};
use crate::geom::builder::GeomBuilder;
use crate::geom::error::{BuildError, BuildFault};
use crate::geom::label::{
    backdrop_fill, backdrop_steps, backdrop_stroke, bottom_padding, c_rect_open, draw_backdrop,
    paddings, rich_key, top_padding, Backdrop, Label, LabelPlan,
};
use crate::geom::place::{fractions_at, fractions_of, moved, offset_point, start_names};
use crate::geom::rich::{
    folded, in_layout_space, landing, layout_space_lands_alike, resolves, shapes, OutlineSheets,
    RichShapeCache, RichWidth, StyleSheet,
};
use crate::geom::state::{
    build_fault, buildable, declares, finalize_state, freshly_built, has_x_and, keys_built,
    require_data_column, require_x_and_siblings, x_and_fault, GeomState, KeysStrategy,
};
use crate::num::Num;
use crate::projection::Projection;
use crate::resolve::{
    align_named, italic_in, other_channels_agree, pick_for, Bound, ScaleOutputs, Source,
};
use crate::scene::{
    turn, turned, with_xform, xform_in, Op, Paint, Point, Rect, Spacing, Step, TextStyle, Xform,
};
use crate::theme::{black, default_fill, TextTheme};
use crate::value::{Color, DataColumn};

verus! {

/// The channels that the geom reads.
pub open spec fn catalog() -> Seq<CatalogEntry> {
    seq![
        ("x", ExpectedOutput::Numbers),
        ("y", ExpectedOutput::Numbers),
        ("x_offset", ExpectedOutput::Numbers),
        ("y_offset", ExpectedOutput::Numbers),
        ("x_band", ExpectedOutput::Numbers),
        ("y_band", ExpectedOutput::Numbers),
        ("text", ExpectedOutput::Strings),
        ("size", ExpectedOutput::Numbers),
        ("weight", ExpectedOutput::Numbers),
        ("italic", ExpectedOutput::Any),
        ("family", ExpectedOutput::Strings),
        ("letter_spacing", ExpectedOutput::Numbers),
        ("underline", ExpectedOutput::Any),
        ("strikethrough", ExpectedOutput::Any),
        ("markdown", ExpectedOutput::Any),
        ("text_stroke", ExpectedOutput::Colors),
        ("text_linewidth", ExpectedOutput::Numbers),
        ("anchor_x", ExpectedOutput::Numbers),
        ("anchor_y", ExpectedOutput::Numbers),
        ("fill", ExpectedOutput::Colors),
        ("fill_opacity", ExpectedOutput::Numbers),
        ("width", ExpectedOutput::Numbers),
        ("width_band", ExpectedOutput::Numbers),
        ("bg_fill", ExpectedOutput::Colors),
        ("bg_fill_opacity", ExpectedOutput::Numbers),
        ("bg_stroke", ExpectedOutput::Colors),
        ("bg_stroke_opacity", ExpectedOutput::Numbers),
        ("bg_linewidth", ExpectedOutput::Numbers),
        ("bg_corner_radius", ExpectedOutput::Numbers),
        ("bg_padding", ExpectedOutput::Numbers),
        ("angle", ExpectedOutput::Numbers),
        ("justify_x", ExpectedOutput::Strings),
        ("pick_id", ExpectedOutput::Numbers),
    ]
}

fn catalog_entries() -> (r: Vec<CatalogEntry>)
    ensures
        r@ == catalog(),
{
    let r: Vec<CatalogEntry> = vec![
        ("x", ExpectedOutput::Numbers),
        ("y", ExpectedOutput::Numbers),
        ("x_offset", ExpectedOutput::Numbers),
        ("y_offset", ExpectedOutput::Numbers),
        ("x_band", ExpectedOutput::Numbers),
        ("y_band", ExpectedOutput::Numbers),
        ("text", ExpectedOutput::Strings),
        ("size", ExpectedOutput::Numbers),
        ("weight", ExpectedOutput::Numbers),
        ("italic", ExpectedOutput::Any),
        ("family", ExpectedOutput::Strings),
        ("letter_spacing", ExpectedOutput::Numbers),
        ("underline", ExpectedOutput::Any),
        ("strikethrough", ExpectedOutput::Any),
        ("markdown", ExpectedOutput::Any),
        ("text_stroke", ExpectedOutput::Colors),
        ("text_linewidth", ExpectedOutput::Numbers),
        ("anchor_x", ExpectedOutput::Numbers),
        ("anchor_y", ExpectedOutput::Numbers),
        ("fill", ExpectedOutput::Colors),
        ("fill_opacity", ExpectedOutput::Numbers),
        ("width", ExpectedOutput::Numbers),
        ("width_band", ExpectedOutput::Numbers),
        ("bg_fill", ExpectedOutput::Colors),
        ("bg_fill_opacity", ExpectedOutput::Numbers),
        ("bg_stroke", ExpectedOutput::Colors),
        ("bg_stroke_opacity", ExpectedOutput::Numbers),
        ("bg_linewidth", ExpectedOutput::Numbers),
        ("bg_corner_radius", ExpectedOutput::Numbers),
        ("bg_padding", ExpectedOutput::Numbers),
        ("angle", ExpectedOutput::Numbers),
        ("justify_x", ExpectedOutput::Strings),
        ("pick_id", ExpectedOutput::Numbers),
    ];
    assert(r@ =~= catalog());
    r
}

/// The columns that have to be as long as `x`.
pub open spec fn required() -> Seq<&'static str> {
    seq!["y"]
}

/// How many rows the channels have.
pub open spec fn rows_of(channels: Map<Seq<char>, Channel>) -> nat {
    channels["x"@].column()->0.count()
}

/// Whether the text varies by row.
pub open spec fn has_text(channels: Map<Seq<char>, Channel>) -> bool {
    channels.contains_key("text"@) && channels["text"@].column() is Some
}

/// Whether a geom of `n` rows can be built from these channels.
pub open spec fn can_build(
    keys: Option<DataColumn>,
    channels: Map<Seq<char>, Channel>,
    n: nat,
) -> bool {
    &&& has_x_and(channels, required(), n)
    &&& has_text(channels)
    &&& buildable(keys, channels, n, catalog())
}

/// Whether no geom can be built, and `e` says why.
pub open spec fn rejected(
    keys: Option<DataColumn>,
    channels: Map<Seq<char>, Channel>,
    e: BuildFault,
) -> bool {
    let n = rows_of(channels);
    &&& !can_build(keys, channels, n)
    &&& if !has_x_and(channels, required(), n) {
        x_and_fault(channels, required(), "TextGeom"@, e)
    } else if !channels.contains_key("text"@) {
        e == (BuildFault::MissingChannel { label: "TextGeom"@, name: "text"@ })
    } else if !has_text(channels) {
        e == (BuildFault::NotData { label: "TextGeom"@, name: "text"@ })
    } else {
        build_fault(keys, channels, n, catalog(), "TextGeom"@, e)
    }
}

/// Labels, one for each row.
pub struct TextGeom {
    /// The keys, channels and frame history.
    pub state: GeomState,
    /// The style sheet for markdown; the theme's where there is none.
    pub rich_sheet: Option<Arc<StyleSheet>>,
    /// The markdown that is shaped already.
    pub rich_cache: RichShapeCache,
    /// The style sheets that outlines were folded onto.
    pub rich_outline_sheets: OutlineSheets,
}

impl TextGeom {
    /// Builds the geom.
    pub fn build_from(builder: GeomBuilder) -> (r: Result<TextGeom, BuildError>)
        ensures
            match r {
                Ok(g) => {
                    &&& can_build(builder.keys, builder.channels@, g.state.keys.count())
                    &&& freshly_built(
                        g.state,
                        builder.keys,
                        builder.channels@,
                        g.state.keys.count(),
                        KeysStrategy::PerRow,
                        g.state.declared@,
                    )
                    &&& declares(g.state.declared@, builder.channels@, catalog())
                    &&& g.state.wf()
                    &&& g.rich_sheet is None
                    &&& g.rich_cache.keys@.len() == 0
                    &&& g.rich_outline_sheets.keys@.len() == 0
                    &&& g.rich_outline_sheets.wf()
                },
                Err(e) => rejected(builder.keys, builder.channels@, e@),
            },
    {
        let (keys_opt, channels) = builder.into_parts();
        let siblings = ["y"];
        assert(siblings@ =~= required());
        let n: usize = match require_x_and_siblings(&channels, &siblings, "TextGeom") {
            Ok(n) => n,
            Err(e) => return Err(e),
        };
        match require_data_column("text", &channels, "TextGeom") {
            Ok(_) => {},
            Err(e) => return Err(e),
        }
        let entries = catalog_entries();
        match finalize_state(
            keys_opt,
            channels,
            n,
            KeysStrategy::PerRow,
            entries.as_slice(),
            "TextGeom",
        ) {
            Ok(state) => Ok(
                TextGeom {
                    state,
                    rich_sheet: None,
                    rich_cache: RichShapeCache::new(),
                    rich_outline_sheets: OutlineSheets::new(),
                },
            ),
            Err(e) => Err(e),
        }
    }

    /// Makes a style sheet that of every row in markdown, in place of the
    /// theme's.
    pub fn with_rich_sheet(self, sheet: Arc<StyleSheet>) -> (r: TextGeom)
        ensures
            r.rich_sheet == Some(sheet),
            r.state == self.state,
            r.rich_cache == self.rich_cache,
            r.rich_outline_sheets == self.rich_outline_sheets,
    {
        TextGeom {
            state: self.state,
            rich_sheet: Some(sheet),
            rich_cache: self.rich_cache,
            rich_outline_sheets: self.rich_outline_sheets,
        }
    }

    /// Makes a style sheet that of every row in markdown, in place of the
    /// theme's.
    pub fn set_rich_sheet(&mut self, sheet: Arc<StyleSheet>)
        ensures
            final(self).rich_sheet == Some(sheet),
            final(self).state == old(self).state,
            final(self).rich_cache == old(self).rich_cache,
            final(self).rich_outline_sheets == old(self).rich_outline_sheets,
    {
        self.rich_sheet = Some(sheet);
    }

    /// Goes back to the theme's style sheet.
    pub fn clear_rich_sheet(&mut self)
        ensures
            final(self).rich_sheet is None,
            final(self).state == old(self).state,
            final(self).rich_cache == old(self).rich_cache,
            final(self).rich_outline_sheets == old(self).rich_outline_sheets,
    {
        self.rich_sheet = None;
    }

    /// Forgets the markdown that is shaped already. What was shaped is found by
    /// its style sheet, so another sheet does not need this.
    pub fn clear_rich_cache(&mut self)
        ensures
            final(self).rich_cache.keys@.len() == 0,
            final(self).state == old(self).state,
            final(self).rich_sheet == old(self).rich_sheet,
            final(self).rich_outline_sheets == old(self).rich_outline_sheets,
    {
        self.rich_cache.clear();
    }

    /// The style sheet of rows in markdown.
    pub fn sheet_or<'a>(&'a self, theme: &'a Arc<StyleSheet>) -> (r: &'a Arc<StyleSheet>)
        ensures
            *r == match self.rich_sheet {
                Some(s) => s,
                None => *theme,
            },
    {
        match &self.rich_sheet {
            Some(s) => s,
            None => theme,
        }
    }

    /// Finds the shape of a row in markdown at a font size: hands out its style
    /// sheet, with the row's outline folded onto it, the place of its shape, and
    /// whether it has still to be shaped.
    pub fn shape_row(
        &mut self,
        theme: &Arc<StyleSheet>,
        label: &Label,
        size_pt: Num,
        palette: u64,
        dpi: Num,
        width: RichWidth,
    ) -> (r: (Arc<StyleSheet>, usize, bool))
        requires
            old(self).rich_outline_sheets.wf(),
        ensures
            ({
                let base = match old(self).rich_sheet {
                    Some(s) => s,
                    None => *theme,
                };
                let key = rich_key(*label, size_pt, base.id, palette, None, dpi, width);
                &&& resolves(
                    old(self).rich_outline_sheets,
                    final(self).rich_outline_sheets,
                    base,
                    label.outline,
                    r.0,
                )
                &&& shapes(old(self).rich_cache, final(self).rich_cache, key, r.1, r.2)
                &&& label.outline matches Some((color, w)) ==> old(
                    self,
                ).rich_outline_sheets.tells_apart(*base) ==> folded(*r.0, *base, color, w)
            }),
            final(self).rich_outline_sheets.wf(),
            final(self).state == old(self).state,
            final(self).rich_sheet == old(self).rich_sheet,
    {
        let base = self.sheet_or(theme).clone();
        let sheet = match label.outline {
            Some((color, w)) => self.rich_outline_sheets.resolve(&base, Some(color), w),
            None => self.rich_outline_sheets.resolve(&base, None, Num { bits: 0 }),
        };
        let key = label.rich_key(size_pt, base.id, palette, None, dpi, width);
        let (slot, fresh) = self.rich_cache.get_or_shape(key);
        (sheet, slot, fresh)
    }

    /// The geom's kind.
    pub fn kind(&self) -> (r: Option<&'static str>)
        ensures
            r is Some,
            r->0@ == "text"@,
    {
        Some("text")
    }

    /// Forgets what was shaped, and the style sheets that were made for it.
    pub fn invalidate_caches(&mut self)
        ensures
            final(self).rich_cache.keys@.len() == 0,
            final(self).rich_outline_sheets.keys@.len() == 0,
            final(self).rich_outline_sheets.wf(),
            final(self).state == old(self).state,
            final(self).rich_sheet == old(self).rich_sheet,
    {
        self.rich_cache.clear();
        self.rich_outline_sheets.clear();
    }
}

impl TextGeom {
    /// Nothing to build from yet.
    pub fn builder() -> (r: GeomBuilder)
        ensures
            r.keys is None,
            r.channels@ == Map::<Seq<char>, Channel>::empty(),
    {
        GeomBuilder::new()
    }

    /// How many rows there are.
    pub fn len(&self) -> (r: usize)
        ensures
            r == self.state.keys.count(),
    {
        self.state.len()
    }

    /// Whether there is no row.
    pub fn is_empty(&self) -> (r: bool)
        ensures
            r == (self.state.keys.count() == 0),
    {
        self.state.is_empty()
    }

    /// Whether a key column was supplied.
    pub fn has_explicit_keys(&self) -> (r: bool)
        ensures
            r == (self.state.keys is Explicit),
    {
        self.state.keys.is_explicit()
    }

    /// The channels that the geom declares, by name.
    pub fn declared_channels(&self) -> (r: &Vec<ChannelDecl>)
        ensures
            *r == self.state.declared,
    {
        &self.state.declared
    }

    /// Replaces one channel. See [`GeomState::set`].
    pub fn set(&mut self, name: &str, value: Channel) -> (r: Result<(), BuildError>)
        ensures
            match r {
                Ok(_) => {
                    &&& value.column() is Some ==> value.column()->0.count()
                        == old(self).state.keys.count()
                    &&& final(self).state.channels@ == old(self).state.channels@.insert(name@, value)
                    &&& final(self).state.dirty
                    &&& final(self).state.same_but_channels(old(self).state)
                },
                Err(e) => {
                    &&& value.column() is Some
                    &&& value.column()->0.count() != old(self).state.keys.count()
                    &&& e@ == (BuildFault::SetLength {
                        name: name@,
                        len: value.column()->0.count(),
                        rows: old(self).state.keys.count(),
                    })
                    &&& final(self).state == old(self).state
                },
            },
            old(self).state.wf() ==> final(self).state.wf(),
            final(self).rich_sheet == old(self).rich_sheet,
            final(self).rich_cache == old(self).rich_cache,
            final(self).rich_outline_sheets == old(self).rich_outline_sheets,
    {
        self.state.set(name.to_owned(), value)
    }

    /// What the geom would be built from again: the start of an update.
    pub fn edit(&self) -> (r: GeomBuilder)
        ensures
            r.channels@ == self.state.channels@,
            match self.state.keys {
                Keys::Explicit(c) => r.keys == Some(c),
                Keys::Positional(_) => r.keys is None,
            },
    {
        GeomBuilder::from_state(&self.state)
    }

    /// Replaces the whole frame by what `builder` makes of it, and makes the
    /// current frame the one before. A frame that cannot be built changes
    /// nothing.
    pub fn update(&mut self, builder: GeomBuilder) -> (r: Result<(), BuildError>)
        ensures
            match r {
                Ok(_) => {
                    &&& can_build(builder.keys, builder.channels@, final(self).state.keys.count())
                    &&& final(self).state.prev_keys == old(self).state.keys
                    &&& final(self).state.prev_channels == old(self).state.channels
                    &&& final(self).state.channels@ == builder.channels@
                    &&& keys_built(
                        final(self).state.keys,
                        builder.keys,
                        final(self).state.keys.count(),
                        KeysStrategy::PerRow,
                    )
                    &&& declares(final(self).state.declared@, builder.channels@, catalog())
                    &&& final(self).state.dirty
                    &&& final(self).state.wf()
                    &&& final(self).rich_sheet == old(self).rich_sheet
                    &&& final(self).rich_cache.keys@.len() == 0
                    &&& final(self).rich_outline_sheets.keys@.len() == 0
                    &&& final(self).rich_outline_sheets.wf()
                },
                Err(e) => rejected(builder.keys, builder.channels@, e@) && *final(self) == *old(
                    self,
                ),
            },
    {
        match Self::build_from(builder) {
            Ok(new) => {
                self.state.replace_current_with(new.state);
                self.invalidate_caches();
                Ok(())
            },
            Err(e) => Err(e),
        }
    }
}

/// The text of row `i`; none where there is nothing to draw.
pub open spec fn text_of(src: Source, i: int) -> Option<String> {
    match src.string_at("text"@, i) {
        Some(s) => if s@.len() == 0 {
            None
        } else {
            Some(s)
        },
        None => None,
    }
}

/// The font weight of row `i`.
pub open spec fn weight_of(src: Source, i: int, default: u16) -> u16 {
    match src.number_at("weight"@, i) {
        Some(n) => choose|w: u16| n.is_font_weight(w),
        None => default,
    }
}

/// The font size of row `i`, in points.
pub open spec fn size_of(src: Source, theme: TextTheme, i: int) -> Num {
    src.number_or("size"@, i, theme.size_pt)
}

/// How row `i` is set.
pub open spec fn style_of(src: Source, theme: TextTheme, i: int) -> TextStyle {
    TextStyle {
        size_pt: size_of(src, theme, i),
        weight: weight_of(src, i, theme.weight),
        italic: italic_in(src.value_at("italic"@, i)),
        spacing: Spacing::Points(src.number_or("letter_spacing"@, i, theme.letter_spacing_pt)),
        underline: src.bool_or("underline"@, i, theme.underline),
        strikethrough: src.bool_or("strikethrough"@, i, theme.strikethrough),
        family: src.string_at("family"@, i),
    }
}

/// What the glyphs of row `i` are filled with.
pub open spec fn fill_of(src: Source, theme: TextTheme, i: int) -> Paint {
    match src.paint_of(src.color_or("fill"@, i, theme.fill), "fill_opacity"@, i) {
        Some(p) => p,
        None => Paint { color: black(), opacity: None },
    }
}

/// The outline of row `i`: its colour, and how wide it is.
pub open spec fn outline_of(src: Source, theme: TextTheme, i: int) -> Option<(Color, Num)> {
    match src.color_or("text_stroke"@, i, theme.text_stroke) {
        Some(c) => Some((c, src.number_or("text_linewidth"@, i, theme.text_linewidth_pt))),
        None => None,
    }
}

/// How wide the lines of row `i` may be, in pixels: points and bands together.
pub open spec fn wrap_px(src: Source, i: int) -> Expr {
    e_add(
        e_px(Expr::Lit(src.number_or("width"@, i, Num { bits: 0 }))),
        e_mul(
            Expr::Lit(src.number_or("width_band"@, i, Num { bits: 0 })),
            e_mul(Expr::Lit(src.band_width("x"@, i)), e_panel_w()),
        ),
    )
}

/// Whether the lines of row `i` are broken.
pub open spec fn c_wraps(src: Source, i: int) -> Cond {
    c_and(c_positive(wrap_px(src, i)), c_finite(wrap_px(src, i)))
}

/// Whether row `i` is in markdown.
pub open spec fn is_markdown(src: Source, theme: TextTheme, i: int) -> bool {
    src.bool_or("markdown"@, i, theme.markdown)
}

/// The label of row `i`.
pub open spec fn label_of(src: Source, theme: TextTheme, i: int) -> Label {
    Label {
        row: i as usize,
        text: text_of(src, i)->0,
        style: style_of(src, theme, i),
        markdown: is_markdown(src, theme, i),
        fill: fill_of(src, theme, i),
        outline: outline_of(src, theme, i),
        align: align_named(src.string_at("justify_x"@, i)),
        wrap: wrap_px(src, i),
        wraps: c_wraps(src, i),
    }
}

/// Whether row `i` has a label: a text, in a font of some size.
pub open spec fn has_label(src: Source, theme: TextTheme, i: int) -> bool {
    &&& text_of(src, i) is Some
    &&& size_of(src, theme, i).finite()
    &&& size_of(src, theme, i).above_zero()
}

/// The point where row `i` is anchored.
pub open spec fn anchor_of(src: Source, projection: Projection, i: int) -> Point {
    let f = fractions_at(src, "x"@, "y"@, "x_band"@, "y_band"@, i);
    moved(src, projection.point_at(f.a, f.b), "x_offset"@, "y_offset"@, i)
}

/// When row `i` is drawn.
pub open spec fn c_drawn(src: Source, i: int) -> Cond {
    let f = fractions_at(src, "x"@, "y"@, "x_band"@, "y_band"@, i);
    c_and(c_panel_open(), c_and(c_finite(f.a), c_finite(f.b)))
}

/// What the background of row `i` is filled with.
pub open spec fn bg_fill_of(src: Source, i: int) -> Option<Paint> {
    src.paint_of(src.color_at("bg_fill"@, i), "bg_fill_opacity"@, i)
}

/// What the background of row `i` is stroked with.
pub open spec fn bg_stroke_of(src: Source, i: int) -> Option<Paint> {
    src.paint_of(src.color_at("bg_stroke"@, i), "bg_stroke_opacity"@, i)
}

/// Whether row `i` has a background.
pub open spec fn has_bg(src: Source, i: int) -> bool {
    bg_fill_of(src, i) is Some || bg_stroke_of(src, i) is Some
}

/// The padding of the background of row `i`, in pixels.
pub open spec fn padding_px(src: Source, i: int) -> Expr {
    e_px(Expr::Lit(src.number_or("bg_padding"@, i, Num { bits: 0 })))
}

/// How wide the label of row `i` is with its background.
pub open spec fn bg_width(src: Source, i: int) -> Expr {
    e_add(Expr::Var(Quantity::TextWidth), e_mul(e_int(2), padding_px(src, i)))
}

/// How high the label of row `i` is with its background.
pub open spec fn bg_height(src: Source, i: int) -> Expr {
    let pad = padding_px(src, i);
    let descent = Expr::Var(Quantity::TextDescent);
    e_add(
        e_add(Expr::Var(Quantity::TextHeight), top_padding(pad, descent)),
        bottom_padding(pad, descent),
    )
}

/// The top left corner of a box of a size, anchored at a point.
pub open spec fn corner_at(
    src: Source,
    theme: TextTheme,
    i: int,
    anchor: Point,
    w: Expr,
    h: Expr,
) -> Point {
    Point {
        x: e_sub(anchor.x, e_mul(Expr::Lit(src.number_or("anchor_x"@, i, theme.anchor_x)), w)),
        y: e_sub(anchor.y, e_mul(Expr::Lit(src.number_or("anchor_y"@, i, theme.anchor_y)), h)),
    }
}

/// The rectangle of the background of row `i`.
pub open spec fn bg_rect(src: Source, theme: TextTheme, i: int, anchor: Point) -> Rect {
    let c = corner_at(src, theme, i, anchor, bg_width(src, i), bg_height(src, i));
    Rect { x0: c.x, y0: c.y, x1: e_add(c.x, bg_width(src, i)), y1: e_add(c.y, bg_height(src, i)) }
}

/// The top left corner of the text of row `i`.
pub open spec fn text_corner(src: Source, theme: TextTheme, i: int, anchor: Point) -> Point {
    if has_bg(src, i) {
        let c = corner_at(src, theme, i, anchor, bg_width(src, i), bg_height(src, i));
        Point {
            x: e_add(c.x, padding_px(src, i)),
            y: e_add(c.y, top_padding(padding_px(src, i), Expr::Var(Quantity::TextDescent))),
        }
    } else {
        corner_at(
            src,
            theme,
            i,
            anchor,
            Expr::Var(Quantity::TextWidth),
            Expr::Var(Quantity::TextHeight),
        )
    }
}

/// How row `i` is turned: about the point where it is anchored.
pub open spec fn xform_of(src: Source, i: int, anchor: Point) -> Xform {
    turned(src.number_or("angle"@, i, Num { bits: 0 }), anchor)
}

/// The background of row `i`.
pub open spec fn backdrop_of(src: Source, theme: TextTheme, i: int, anchor: Point) -> Backdrop {
    Backdrop {
        rect: bg_rect(src, theme, i, anchor),
        fill: bg_fill_of(src, i),
        stroke: bg_stroke_of(src, i),
        linewidth: src.number_or("bg_linewidth"@, i, theme.bg_linewidth_pt),
        corner_radius: src.number_or("bg_corner_radius"@, i, Num { bits: 0 }),
        xform: xform_of(src, i, anchor),
        pick: pick_for(src.number_at("pick_id"@, i)),
    }
}

/// The steps that draw the glyphs of row `i`: an outline first, where it has
/// any width.
pub open spec fn glyph_steps(src: Source, theme: TextTheme, i: int, anchor: Point) -> Seq<Step> {
    let at = text_corner(src, theme, i, anchor);
    let xform = xform_of(src, i, anchor);
    let pick = pick_for(src.number_at("pick_id"@, i));
    if is_markdown(src, theme, i) {
        seq![Step { when: c_drawn(src, i), op: Op::RichText { at, xform, pick } }]
    } else {
        let glyphs = Step {
            when: c_drawn(src, i),
            op: Op::Text { at, xform, paint: fill_of(src, theme, i), pick },
        };
        match outline_of(src, theme, i) {
            Some((color, width)) => seq![
                Step {
                    when: c_and(c_drawn(src, i), c_positive(e_px(Expr::Lit(width)))),
                    op: Op::TextOutline {
                        at,
                        xform,
                        paint: Paint { color, opacity: None },
                        width: e_px(Expr::Lit(width)),
                    },
                },
                glyphs,
            ],
            None => seq![glyphs],
        }
    }
}

/// What is drawn for row `i`: its background, then its glyphs.
pub open spec fn row_steps(src: Source, theme: TextTheme, projection: Projection, i: int) -> Seq<
    Step,
> {
    let anchor = anchor_of(src, projection, i);
    let behind = if has_bg(src, i) {
        backdrop_steps(backdrop_of(src, theme, i, anchor), c_drawn(src, i))
    } else {
        Seq::empty()
    };
    behind + glyph_steps(src, theme, i, anchor)
}

/// Whether `p` is the plan for row `i`.
pub open spec fn is_plan(
    p: LabelPlan,
    src: Source,
    theme: TextTheme,
    projection: Projection,
    i: int,
) -> bool {
    &&& p.label == label_of(src, theme, i)
    &&& p.steps@ == row_steps(src, theme, projection, i)
}

/// The rows among the first `n` that have a label, in order.
pub open spec fn labelled_rows(src: Source, theme: TextTheme, n: nat) -> Seq<int>
    decreases n,
{
    if n == 0 {
        Seq::empty()
    } else {
        let before = labelled_rows(src, theme, (n - 1) as nat);
        if has_label(src, theme, n - 1) {
            before.push(n - 1)
        } else {
            before
        }
    }
}

/// Whether `plans` are those of the first `n` rows, for each row with a label
/// one.
pub open spec fn are_plans(
    plans: Seq<LabelPlan>,
    src: Source,
    theme: TextTheme,
    projection: Projection,
    n: nat,
) -> bool {
    let rows = labelled_rows(src, theme, n);
    &&& plans.len() == rows.len()
    &&& forall|k: int|
        0 <= k < plans.len() ==> is_plan(#[trigger] plans[k], src, theme, projection, rows[k])
}

fn style_for(src: &Bound, theme: &TextTheme, i: usize, size_pt: Num) -> (r: TextStyle)
    requires
        size_pt == size_of(src@, *theme, i as int),
    ensures
        r == style_of(src@, *theme, i as int),
{
    let weight: u16 = match src.number_at("weight", i) {
        Some(n) => n.font_weight(),
        None => theme.weight,
    };
    TextStyle {
        size_pt,
        weight,
        italic: src.italic_at("italic", i),
        spacing: Spacing::Points(src.number_or("letter_spacing", i, theme.letter_spacing_pt)),
        underline: src.bool_or("underline", i, theme.underline),
        strikethrough: src.bool_or("strikethrough", i, theme.strikethrough),
        family: src.string_at("family", i),
    }
}

fn fill_for(src: &Bound, theme: &TextTheme, i: usize) -> (r: Paint)
    ensures
        r == fill_of(src@, *theme, i as int),
{
    match src.paint_of(src.color_or("fill", i, theme.fill), "fill_opacity", i) {
        Some(p) => p,
        None => Paint { color: default_fill(), opacity: None },
    }
}

fn outline_for(src: &Bound, theme: &TextTheme, i: usize) -> (r: Option<(Color, Num)>)
    ensures
        r == outline_of(src@, *theme, i as int),
{
    match src.color_or("text_stroke", i, theme.text_stroke) {
        Some(c) => Some((c, src.number_or("text_linewidth", i, theme.text_linewidth_pt))),
        None => None,
    }
}

fn label_for(src: &Bound, theme: &TextTheme, i: usize, text: String, size_pt: Num) -> (r: Label)
    requires
        src@.places_rows("x"@),
        text_of(src@, i as int) == Some(text),
        size_pt == size_of(src@, *theme, i as int),
    ensures
        r == label_of(src@, *theme, i as int),
{
    let width: Num = src.number_or("width", i, Num { bits: 0 });
    let bands: Num = src.number_or("width_band", i, Num { bits: 0 });
    let band = Expr::Lit(src.band_width("x", i)).times(Expr::panel_w());
    let wrap = Expr::Lit(width).in_px().plus(Expr::Lit(bands).times(band));
    let wraps = wrap.is_positive().and(wrap.is_finite());
    Label {
        row: i,
        text,
        style: style_for(src, theme, i, size_pt),
        markdown: src.bool_or("markdown", i, theme.markdown),
        fill: fill_for(src, theme, i),
        outline: outline_for(src, theme, i),
        align: src.align_at("justify_x", i),
        wrap,
        wraps,
    }
}

fn corner_for(src: &Bound, theme: &TextTheme, i: usize, anchor: &Point, w: Expr, h: Expr) -> (r:
    Point)
    ensures
        r == corner_at(src@, *theme, i as int, *anchor, w, h),
{
    let ax: Num = src.number_or("anchor_x", i, theme.anchor_x);
    let ay: Num = src.number_or("anchor_y", i, theme.anchor_y);
    Point {
        x: anchor.x.again().minus(Expr::Lit(ax).times(w)),
        y: anchor.y.again().minus(Expr::Lit(ay).times(h)),
    }
}

fn plan_backdrop(
    src: &Bound,
    theme: &TextTheme,
    i: usize,
    anchor: &Point,
    drawn: &Cond,
    out: &mut Vec<Step>,
) -> (r: Point)
    requires
        has_bg(src@, i as int),
    ensures
        r == text_corner(src@, *theme, i as int, *anchor),
        final(out)@ == old(out)@ + backdrop_steps(
            backdrop_of(src@, *theme, i as int, *anchor),
            *drawn,
        ),
{
    let pad = Expr::Lit(src.number_or("bg_padding", i, Num { bits: 0 })).in_px();
    let (top, bottom) = paddings(&pad);
    let w = Expr::Var(Quantity::TextWidth).plus(Expr::Ratio(2, 1).times(pad.again()));
    let h = Expr::Var(Quantity::TextHeight).plus(top.again()).plus(bottom);
    let c = corner_for(src, theme, i, anchor, w.again(), h.again());
    let rect = Rect {
        x0: c.x.again(),
        y0: c.y.again(),
        x1: c.x.again().plus(w),
        y1: c.y.again().plus(h),
    };
    let b = Backdrop {
        rect,
        fill: src.paint_of(src.color_at("bg_fill", i), "bg_fill_opacity", i),
        stroke: src.paint_of(src.color_at("bg_stroke", i), "bg_stroke_opacity", i),
        linewidth: src.number_or("bg_linewidth", i, theme.bg_linewidth_pt),
        corner_radius: src.number_or("bg_corner_radius", i, Num { bits: 0 }),
        xform: turn(src.number_or("angle", i, Num { bits: 0 }), anchor.again()),
        pick: src.pick_at("pick_id", i),
    };
    draw_backdrop(b, drawn, out);
    Point { x: c.x.plus(pad), y: c.y.plus(top) }
}

fn plan_row(
    src: &Bound,
    theme: &TextTheme,
    projection: &Projection,
    i: usize,
    text: String,
    size_pt: Num,
) -> (r: LabelPlan)
    requires
        src@.places_rows("x"@),
        src@.places_rows("y"@),
        text_of(src@, i as int) == Some(text),
        size_pt == size_of(src@, *theme, i as int),
    ensures
        is_plan(r, src@, *theme, *projection, i as int),
{
    let label = label_for(src, theme, i, text, size_pt);
    let names = start_names();
    let f = fractions_of(src, &names, i);
    let anchor = offset_point(src, projection.project(&f.a, &f.b), &names, i);
    let drawn = Cond::panel_open().and(f.a.is_finite().and(f.b.is_finite()));
    let pick = src.pick_at("pick_id", i);
    let xform = turn(src.number_or("angle", i, Num { bits: 0 }), anchor.again());
    let has_fill = src.paint_of(src.color_at("bg_fill", i), "bg_fill_opacity", i).is_some();
    let has_stroke = src.paint_of(src.color_at("bg_stroke", i), "bg_stroke_opacity", i).is_some();
    let mut steps: Vec<Step> = Vec::new();
    let at = if has_fill || has_stroke {
        plan_backdrop(src, theme, i, &anchor, &drawn, &mut steps)
    } else {
        corner_for(
            src,
            theme,
            i,
            &anchor,
            Expr::Var(Quantity::TextWidth),
            Expr::Var(Quantity::TextHeight),
        )
    };
    let ghost behind = steps@;
    if label.markdown {
        steps.push(Step { when: drawn, op: Op::RichText { at, xform, pick } });
    } else {
        if let Some((color, width)) = label.outline {
            let px = Expr::Lit(width).in_px();
            steps.push(
                Step {
                    when: drawn.again().and(px.is_positive()),
                    op: Op::TextOutline {
                        at: at.again(),
                        xform: xform.again(),
                        paint: Paint { color, opacity: None },
                        width: px,
                    },
                },
            );
        }
        steps.push(Step { when: drawn, op: Op::Text { at, xform, paint: label.fill, pick } });
    }
    assert(steps@ =~= behind + glyph_steps(src@, *theme, i as int, anchor));
    assert(steps@ =~= row_steps(src@, *theme, *projection, i as int));
    LabelPlan { label, steps }
}

impl TextGeom {
    /// The labels, and what is drawn for each.
    pub fn draw(&self, scales: &ScaleOutputs, theme: &TextTheme, projection: &Projection) -> (r: Vec<
        LabelPlan,
    >)
        ensures
            ({
                let src = Source {
                    channels: self.state.channels@,
                    values: scales.values@,
                    positions: scales.positions@,
                };
                let placed = src.places_rows("x"@) && src.places_rows("y"@);
                &&& placed ==> are_plans(r@, src, *theme, *projection, self.state.keys.count())
                &&& !placed ==> r@.len() == 0
            }),
    {
        let src = Bound { channels: &self.state.channels, scales };
        let mut out: Vec<LabelPlan> = Vec::new();
        if !src.places_rows("x") || !src.places_rows("y") {
            return out;
        }
        let n: usize = self.len();
        let mut i: usize = 0;
        while i < n
            invariant
                i <= n,
                src@.places_rows("x"@),
                src@.places_rows("y"@),
                are_plans(out@, src@, *theme, *projection, i as nat),
            decreases n - i,
        {
            let ghost before = out@;
            let ghost rows = labelled_rows(src@, *theme, i as nat);
            let size_pt: Num = src.number_or("size", i, theme.size_pt);
            let text = src.string_at("text", i);
            let shown = match &text {
                Some(s) => s.as_str().unicode_len() > 0,
                None => false,
            };
            if let Some(s) = text {
                if shown && size_pt.is_finite() && size_pt.is_above_zero() {
                    assert(has_label(src@, *theme, i as int));
                    let p = plan_row(&src, theme, projection, i, s, size_pt);
                    out.push(p);
                    let ghost after = labelled_rows(src@, *theme, (i + 1) as nat);
                    assert(after == rows.push(i as int));
                    assert forall|k: int| 0 <= k < out@.len() implies is_plan(
                        #[trigger] out@[k],
                        src@,
                        *theme,
                        *projection,
                        after[k],
                    ) by {
                        if k < before.len() {
                            assert(out@[k] == before[k]);
                            assert(after[k] == rows[k]);
                        }
                    }
                }
            }
            assert(are_plans(out@, src@, *theme, *projection, (i + 1) as nat));
            i = i + 1;
        }
        out
    }
}

/// Every row with a label has its plan, and a plan is for a row with a label.
pub proof fn labelled_rows_are_those_with_labels(src: Source, theme: TextTheme, n: nat, i: int)
    ensures
        labelled_rows(src, theme, n).contains(i) == (0 <= i < n && has_label(src, theme, i)),
    decreases n,
{
    let s = labelled_rows(src, theme, n);
    if n > 0 {
        let t = labelled_rows(src, theme, (n - 1) as nat);
        labelled_rows_are_those_with_labels(src, theme, (n - 1) as nat, i);
        if has_label(src, theme, n - 1) {
            assert(s[t.len() as int] == n - 1);
            if t.contains(i) {
                let k = choose|k: int| 0 <= k < t.len() && t[k] == i;
                assert(s[k] == i);
            }
            if s.contains(i) && i != n - 1 {
                let k = choose|k: int| 0 <= k < s.len() && s[k] == i;
                assert(t[k] == i);
            }
        }
    }
}

/// A background leaves the same padding left and right of the text, and above
/// and below it what the padding is split into.
pub proof fn background_surrounds_text(
    src: Source,
    theme: TextTheme,
    i: int,
    anchor: Point,
    env: Env,
)
    requires
        has_bg(src, i),
    ensures
        ({
            let r = bg_rect(src, theme, i, anchor);
            let at = text_corner(src, theme, i, anchor);
            let w = (env.var)(Quantity::TextWidth);
            let h = (env.var)(Quantity::TextHeight);
            let pad = padding_px(src, i);
            let descent = Expr::Var(Quantity::TextDescent);
            &&& value(at.x, env) - value(r.x0, env) == value(pad, env)
            &&& value(r.x1, env) - (value(at.x, env) + w) == value(pad, env)
            &&& value(at.y, env) - value(r.y0, env) == value(top_padding(pad, descent), env)
            &&& value(r.y1, env) - (value(at.y, env) + h) == value(
                bottom_padding(pad, descent),
                env,
            )
        }),
{
    let pad = padding_px(src, i);
    let descent = Expr::Var(Quantity::TextDescent);
    let top = top_padding(pad, descent);
    let bottom = bottom_padding(pad, descent);
    let w = bg_width(src, i);
    let h = bg_height(src, i);
    let c = corner_at(src, theme, i, anchor, w, h);
    assert(value(e_int(2), env) == 2real) by {
        assert(2real / 1real == 2real);
    }
    assert(value(e_mul(e_int(2), pad), env) == 2real * value(pad, env));
    assert(value(Expr::Var(Quantity::TextWidth), env) == (env.var)(Quantity::TextWidth));
    assert(value(Expr::Var(Quantity::TextHeight), env) == (env.var)(Quantity::TextHeight));
    assert(value(w, env) == (env.var)(Quantity::TextWidth) + 2real * value(pad, env));
    assert(value(e_add(Expr::Var(Quantity::TextHeight), top), env) == (env.var)(
        Quantity::TextHeight,
    ) + value(top, env));
    assert(value(h, env) == (env.var)(Quantity::TextHeight) + value(top, env) + value(bottom, env));
    assert(value(e_add(c.x, pad), env) == value(c.x, env) + value(pad, env));
    assert(value(e_add(c.y, top), env) == value(c.y, env) + value(top, env));
    assert(value(e_add(c.x, w), env) == value(c.x, env) + value(w, env));
    assert(value(e_add(c.y, h), env) == value(c.y, env) + value(h, env));
}

/// Whether two sources hold the same in every channel but the weight and the
/// angle.
#[verifier::opaque]
spec fn agree_elsewhere(a: Source, b: Source) -> bool {
    &&& a.same_in(b, "x"@)
    &&& a.same_in(b, "y"@)
    &&& a.same_in(b, "x_offset"@)
    &&& a.same_in(b, "y_offset"@)
    &&& a.same_in(b, "x_band"@)
    &&& a.same_in(b, "y_band"@)
    &&& a.same_in(b, "text"@)
    &&& a.same_in(b, "size"@)
    &&& a.same_in(b, "italic"@)
    &&& a.same_in(b, "family"@)
    &&& a.same_in(b, "letter_spacing"@)
    &&& a.same_in(b, "underline"@)
    &&& a.same_in(b, "strikethrough"@)
    &&& a.same_in(b, "markdown"@)
    &&& a.same_in(b, "text_stroke"@)
    &&& a.same_in(b, "text_linewidth"@)
    &&& a.same_in(b, "anchor_x"@)
    &&& a.same_in(b, "anchor_y"@)
    &&& a.same_in(b, "fill"@)
    &&& a.same_in(b, "fill_opacity"@)
    &&& a.same_in(b, "width"@)
    &&& a.same_in(b, "width_band"@)
    &&& a.same_in(b, "bg_fill"@)
    &&& a.same_in(b, "bg_fill_opacity"@)
    &&& a.same_in(b, "bg_stroke"@)
    &&& a.same_in(b, "bg_stroke_opacity"@)
    &&& a.same_in(b, "bg_linewidth"@)
    &&& a.same_in(b, "bg_corner_radius"@)
    &&& a.same_in(b, "bg_padding"@)
    &&& a.same_in(b, "justify_x"@)
    &&& a.same_in(b, "pick_id"@)
}

proof fn all_but_weight_agrees(a: Source, b: Source)
    requires
        a.same_but(b, "weight"@),
    ensures
        agree_elsewhere(a, b),
        a.same_in(b, "angle"@),
{
    reveal(agree_elsewhere);
    reveal_strlit("weight");
    reveal_strlit("x");
    assert("x"@.len() != "weight"@.len());
    other_channels_agree(a, b, "weight"@, "x"@);
    reveal_strlit("y");
    assert("y"@.len() != "weight"@.len());
    other_channels_agree(a, b, "weight"@, "y"@);
    reveal_strlit("x_offset");
    assert("x_offset"@.len() != "weight"@.len());
    other_channels_agree(a, b, "weight"@, "x_offset"@);
    reveal_strlit("y_offset");
    assert("y_offset"@.len() != "weight"@.len());
    other_channels_agree(a, b, "weight"@, "y_offset"@);
    reveal_strlit("x_band");
    assert("x_band"@[0] != "weight"@[0]);
    other_channels_agree(a, b, "weight"@, "x_band"@);
    reveal_strlit("y_band");
    assert("y_band"@[0] != "weight"@[0]);
    other_channels_agree(a, b, "weight"@, "y_band"@);
    reveal_strlit("text");
    assert("text"@.len() != "weight"@.len());
    other_channels_agree(a, b, "weight"@, "text"@);
    reveal_strlit("size");
    assert("size"@.len() != "weight"@.len());
    other_channels_agree(a, b, "weight"@, "size"@);
    reveal_strlit("italic");
    assert("italic"@[0] != "weight"@[0]);
    other_channels_agree(a, b, "weight"@, "italic"@);
    reveal_strlit("family");
    assert("family"@[0] != "weight"@[0]);
    other_channels_agree(a, b, "weight"@, "family"@);
    reveal_strlit("letter_spacing");
    assert("letter_spacing"@.len() != "weight"@.len());
    other_channels_agree(a, b, "weight"@, "letter_spacing"@);
    reveal_strlit("underline");
    assert("underline"@.len() != "weight"@.len());
    other_channels_agree(a, b, "weight"@, "underline"@);
    reveal_strlit("strikethrough");
    assert("strikethrough"@.len() != "weight"@.len());
    other_channels_agree(a, b, "weight"@, "strikethrough"@);
    reveal_strlit("markdown");
    assert("markdown"@.len() != "weight"@.len());
    other_channels_agree(a, b, "weight"@, "markdown"@);
    reveal_strlit("text_stroke");
    assert("text_stroke"@.len() != "weight"@.len());
    other_channels_agree(a, b, "weight"@, "text_stroke"@);
    reveal_strlit("text_linewidth");
    assert("text_linewidth"@.len() != "weight"@.len());
    other_channels_agree(a, b, "weight"@, "text_linewidth"@);
    reveal_strlit("anchor_x");
    assert("anchor_x"@.len() != "weight"@.len());
    other_channels_agree(a, b, "weight"@, "anchor_x"@);
    reveal_strlit("anchor_y");
    assert("anchor_y"@.len() != "weight"@.len());
    other_channels_agree(a, b, "weight"@, "anchor_y"@);
    reveal_strlit("fill");
    assert("fill"@.len() != "weight"@.len());
    other_channels_agree(a, b, "weight"@, "fill"@);
    reveal_strlit("fill_opacity");
    assert("fill_opacity"@.len() != "weight"@.len());
    other_channels_agree(a, b, "weight"@, "fill_opacity"@);
    reveal_strlit("width");
    assert("width"@.len() != "weight"@.len());
    other_channels_agree(a, b, "weight"@, "width"@);
    reveal_strlit("width_band");
    assert("width_band"@.len() != "weight"@.len());
    other_channels_agree(a, b, "weight"@, "width_band"@);
    reveal_strlit("bg_fill");
    assert("bg_fill"@.len() != "weight"@.len());
    other_channels_agree(a, b, "weight"@, "bg_fill"@);
    reveal_strlit("bg_fill_opacity");
    assert("bg_fill_opacity"@.len() != "weight"@.len());
    other_channels_agree(a, b, "weight"@, "bg_fill_opacity"@);
    reveal_strlit("bg_stroke");
    assert("bg_stroke"@.len() != "weight"@.len());
    other_channels_agree(a, b, "weight"@, "bg_stroke"@);
    reveal_strlit("bg_stroke_opacity");
    assert("bg_stroke_opacity"@.len() != "weight"@.len());
    other_channels_agree(a, b, "weight"@, "bg_stroke_opacity"@);
    reveal_strlit("bg_linewidth");
    assert("bg_linewidth"@.len() != "weight"@.len());
    other_channels_agree(a, b, "weight"@, "bg_linewidth"@);
    reveal_strlit("bg_corner_radius");
    assert("bg_corner_radius"@.len() != "weight"@.len());
    other_channels_agree(a, b, "weight"@, "bg_corner_radius"@);
    reveal_strlit("bg_padding");
    assert("bg_padding"@.len() != "weight"@.len());
    other_channels_agree(a, b, "weight"@, "bg_padding"@);
    reveal_strlit("justify_x");
    assert("justify_x"@.len() != "weight"@.len());
    other_channels_agree(a, b, "weight"@, "justify_x"@);
    reveal_strlit("pick_id");
    assert("pick_id"@.len() != "weight"@.len());
    other_channels_agree(a, b, "weight"@, "pick_id"@);
    reveal_strlit("angle");
    assert("angle"@.len() != "weight"@.len());
    other_channels_agree(a, b, "weight"@, "angle"@);
}

proof fn all_but_angle_agrees(a: Source, b: Source)
    requires
        a.same_but(b, "angle"@),
    ensures
        agree_elsewhere(a, b),
        a.same_in(b, "weight"@),
{
    reveal(agree_elsewhere);
    reveal_strlit("angle");
    reveal_strlit("x");
    assert("x"@.len() != "angle"@.len());
    other_channels_agree(a, b, "angle"@, "x"@);
    reveal_strlit("y");
    assert("y"@.len() != "angle"@.len());
    other_channels_agree(a, b, "angle"@, "y"@);
    reveal_strlit("x_offset");
    assert("x_offset"@.len() != "angle"@.len());
    other_channels_agree(a, b, "angle"@, "x_offset"@);
    reveal_strlit("y_offset");
    assert("y_offset"@.len() != "angle"@.len());
    other_channels_agree(a, b, "angle"@, "y_offset"@);
    reveal_strlit("x_band");
    assert("x_band"@.len() != "angle"@.len());
    other_channels_agree(a, b, "angle"@, "x_band"@);
    reveal_strlit("y_band");
    assert("y_band"@.len() != "angle"@.len());
    other_channels_agree(a, b, "angle"@, "y_band"@);
    reveal_strlit("text");
    assert("text"@.len() != "angle"@.len());
    other_channels_agree(a, b, "angle"@, "text"@);
    reveal_strlit("size");
    assert("size"@.len() != "angle"@.len());
    other_channels_agree(a, b, "angle"@, "size"@);
    reveal_strlit("italic");
    assert("italic"@.len() != "angle"@.len());
    other_channels_agree(a, b, "angle"@, "italic"@);
    reveal_strlit("family");
    assert("family"@.len() != "angle"@.len());
    other_channels_agree(a, b, "angle"@, "family"@);
    reveal_strlit("letter_spacing");
    assert("letter_spacing"@.len() != "angle"@.len());
    other_channels_agree(a, b, "angle"@, "letter_spacing"@);
    reveal_strlit("underline");
    assert("underline"@.len() != "angle"@.len());
    other_channels_agree(a, b, "angle"@, "underline"@);
    reveal_strlit("strikethrough");
    assert("strikethrough"@.len() != "angle"@.len());
    other_channels_agree(a, b, "angle"@, "strikethrough"@);
    reveal_strlit("markdown");
    assert("markdown"@.len() != "angle"@.len());
    other_channels_agree(a, b, "angle"@, "markdown"@);
    reveal_strlit("text_stroke");
    assert("text_stroke"@.len() != "angle"@.len());
    other_channels_agree(a, b, "angle"@, "text_stroke"@);
    reveal_strlit("text_linewidth");
    assert("text_linewidth"@.len() != "angle"@.len());
    other_channels_agree(a, b, "angle"@, "text_linewidth"@);
    reveal_strlit("anchor_x");
    assert("anchor_x"@.len() != "angle"@.len());
    other_channels_agree(a, b, "angle"@, "anchor_x"@);
    reveal_strlit("anchor_y");
    assert("anchor_y"@.len() != "angle"@.len());
    other_channels_agree(a, b, "angle"@, "anchor_y"@);
    reveal_strlit("fill");
    assert("fill"@.len() != "angle"@.len());
    other_channels_agree(a, b, "angle"@, "fill"@);
    reveal_strlit("fill_opacity");
    assert("fill_opacity"@.len() != "angle"@.len());
    other_channels_agree(a, b, "angle"@, "fill_opacity"@);
    reveal_strlit("width");
    assert("width"@[0] != "angle"@[0]);
    other_channels_agree(a, b, "angle"@, "width"@);
    reveal_strlit("width_band");
    assert("width_band"@.len() != "angle"@.len());
    other_channels_agree(a, b, "angle"@, "width_band"@);
    reveal_strlit("bg_fill");
    assert("bg_fill"@.len() != "angle"@.len());
    other_channels_agree(a, b, "angle"@, "bg_fill"@);
    reveal_strlit("bg_fill_opacity");
    assert("bg_fill_opacity"@.len() != "angle"@.len());
    other_channels_agree(a, b, "angle"@, "bg_fill_opacity"@);
    reveal_strlit("bg_stroke");
    assert("bg_stroke"@.len() != "angle"@.len());
    other_channels_agree(a, b, "angle"@, "bg_stroke"@);
    reveal_strlit("bg_stroke_opacity");
    assert("bg_stroke_opacity"@.len() != "angle"@.len());
    other_channels_agree(a, b, "angle"@, "bg_stroke_opacity"@);
    reveal_strlit("bg_linewidth");
    assert("bg_linewidth"@.len() != "angle"@.len());
    other_channels_agree(a, b, "angle"@, "bg_linewidth"@);
    reveal_strlit("bg_corner_radius");
    assert("bg_corner_radius"@.len() != "angle"@.len());
    other_channels_agree(a, b, "angle"@, "bg_corner_radius"@);
    reveal_strlit("bg_padding");
    assert("bg_padding"@.len() != "angle"@.len());
    other_channels_agree(a, b, "angle"@, "bg_padding"@);
    reveal_strlit("justify_x");
    assert("justify_x"@.len() != "angle"@.len());
    other_channels_agree(a, b, "angle"@, "justify_x"@);
    reveal_strlit("pick_id");
    assert("pick_id"@.len() != "angle"@.len());
    other_channels_agree(a, b, "angle"@, "pick_id"@);
    reveal_strlit("weight");
    assert("weight"@.len() != "angle"@.len());
    other_channels_agree(a, b, "angle"@, "weight"@);
}

proof fn label_parts_agree(a: Source, b: Source, theme: TextTheme, i: int)
    requires
        agree_elsewhere(a, b),
    ensures
        weight_of(a, i, theme.weight) == weight_of(b, i, theme.weight) ==> label_of(a, theme, i)
            == label_of(b, theme, i),
        has_label(a, theme, i) == has_label(b, theme, i),
{
    reveal(agree_elsewhere);
    assert(text_of(a, i) == text_of(b, i));
    assert(fill_of(a, theme, i) == fill_of(b, theme, i));
    assert(outline_of(a, theme, i) == outline_of(b, theme, i));
    assert(wrap_px(a, i) == wrap_px(b, i));
}

proof fn backdrops_agree(a: Source, b: Source, theme: TextTheme, i: int, anchor: Point)
    requires
        agree_elsewhere(a, b),
    ensures
        has_bg(a, i) == has_bg(b, i),
        text_corner(a, theme, i, anchor) == text_corner(b, theme, i, anchor),
        backdrop_of(a, theme, i, anchor) == (Backdrop {
            xform: xform_of(a, i, anchor),
            ..backdrop_of(b, theme, i, anchor)
        }),
{
    reveal(agree_elsewhere);
    assert(bg_fill_of(a, i) == bg_fill_of(b, i));
    assert(bg_stroke_of(a, i) == bg_stroke_of(b, i));
    assert(padding_px(a, i) == padding_px(b, i));
    assert(bg_width(a, i) == bg_width(b, i));
    assert(bg_height(a, i) == bg_height(b, i));
    assert(bg_rect(a, theme, i, anchor) == bg_rect(b, theme, i, anchor));
}

proof fn places_agree(a: Source, b: Source, projection: Projection, i: int)
    requires
        agree_elsewhere(a, b),
    ensures
        anchor_of(a, projection, i) == anchor_of(b, projection, i),
        c_drawn(a, i) == c_drawn(b, i),
        a.number_at("pick_id"@, i) == b.number_at("pick_id"@, i),
{
    reveal(agree_elsewhere);
    assert(fractions_at(a, "x"@, "y"@, "x_band"@, "y_band"@, i) == fractions_at(
        b,
        "x"@,
        "y"@,
        "x_band"@,
        "y_band"@,
        i,
    ));
}

proof fn labelled_rows_agree(a: Source, b: Source, theme: TextTheme, n: nat)
    requires
        agree_elsewhere(a, b),
    ensures
        labelled_rows(a, theme, n) == labelled_rows(b, theme, n),
    decreases n,
{
    if n > 0 {
        labelled_rows_agree(a, b, theme, (n - 1) as nat);
        label_parts_agree(a, b, theme, n - 1);
    }
}

/// A label whose weight is no whole number is drawn as one whose weight is the
/// nearest hundred. The plans of geoms that differ in nothing else are the same.
pub proof fn weights_round_to_hundreds(
    src: Source,
    rounded: Source,
    theme: TextTheme,
    projection: Projection,
    n: nat,
    plans: Seq<LabelPlan>,
    others: Seq<LabelPlan>,
)
    requires
        src.same_but(rounded, "weight"@),
        are_plans(plans, src, theme, projection, n),
        are_plans(others, rounded, theme, projection, n),
        forall|i: int|
            0 <= i < n ==> match (
                #[trigger] src.number_at("weight"@, i),
                rounded.number_at("weight"@, i),
            ) {
                (Some(w), Some(h)) => w.has_nearest_hundred(h),
                _ => false,
            },
    ensures
        plans.len() == others.len(),
        forall|k: int|
            0 <= k < plans.len() ==> (#[trigger] plans[k]).label == others[k].label
                && plans[k].steps@ == others[k].steps@,
{
    all_but_weight_agrees(src, rounded);
    labelled_rows_agree(src, rounded, theme, n);
    let rows = labelled_rows(src, theme, n);
    assert forall|k: int| 0 <= k < plans.len() implies (#[trigger] plans[k]).label
        == others[k].label && plans[k].steps@ == others[k].steps@ by {
        let i = rows[k];
        assert(rows.contains(i));
        labelled_rows_are_those_with_labels(src, theme, n, i);
        let w = src.number_at("weight"@, i)->0;
        w.font_weights_are_hundreds(rounded.number_at("weight"@, i)->0);
        assert(is_plan(plans[k], src, theme, projection, i));
        assert(is_plan(others[k], rounded, theme, projection, i));
        label_parts_agree(src, rounded, theme, i);
        places_agree(src, rounded, projection, i);
        let anchor = anchor_of(src, projection, i);
        backdrops_agree(src, rounded, theme, i, anchor);
        assert(src.value_at("angle"@, i) == rounded.value_at("angle"@, i));
        assert(xform_of(src, i, anchor) == xform_of(rounded, i, anchor));
        assert(label_of(src, theme, i).fill == fill_of(src, theme, i));
        assert(glyph_steps(src, theme, i, anchor) == glyph_steps(rounded, theme, i, anchor));
    }
}

/// Whether `s` are the steps of `upright`, every one of them turned by `t` and
/// otherwise the same.
pub open spec fn are_turned(s: Seq<Step>, upright: Seq<Step>, t: Xform) -> bool {
    &&& s.len() == upright.len()
    &&& forall|j: int|
        0 <= j < s.len() ==> {
            &&& (#[trigger] s[j]).when == upright[j].when
            &&& s[j].op == with_xform(upright[j].op, t)
            &&& xform_in(s[j].op) == t
            &&& xform_in(upright[j].op) == Xform::Identity
        }
}

/// A label that is turned, in markdown or not, turns as a whole about the point
/// where it is anchored: its background and its glyphs are those of the label
/// that is not turned, each put through the same turn. The plans of geoms that
/// differ in nothing else differ in this alone.
pub proof fn labels_turn_rigidly(
    src: Source,
    upright: Source,
    theme: TextTheme,
    projection: Projection,
    n: nat,
    plans: Seq<LabelPlan>,
    others: Seq<LabelPlan>,
)
    requires
        src.same_but(upright, "angle"@),
        are_plans(plans, src, theme, projection, n),
        are_plans(others, upright, theme, projection, n),
        forall|i: int|
            0 <= i < n ==> (#[trigger] upright.number_or("angle"@, i, Num { bits: 0 })).is_nought(),
    ensures
        plans.len() == others.len(),
        forall|k: int|
            0 <= k < plans.len() ==> {
                let i = labelled_rows(src, theme, n)[k];
                let anchor = anchor_of(upright, projection, i);
                let angle = src.number_or("angle"@, i, Num { bits: 0 });
                &&& (#[trigger] plans[k]).label == others[k].label
                &&& are_turned(plans[k].steps@, others[k].steps@, turned(angle, anchor))
            },
{
    all_but_angle_agrees(src, upright);
    labelled_rows_agree(src, upright, theme, n);
    let rows = labelled_rows(src, theme, n);
    assert forall|k: int| 0 <= k < plans.len() implies {
        let i = labelled_rows(src, theme, n)[k];
        let anchor = anchor_of(upright, projection, i);
        let angle = src.number_or("angle"@, i, Num { bits: 0 });
        &&& (#[trigger] plans[k]).label == others[k].label
        &&& are_turned(plans[k].steps@, others[k].steps@, turned(angle, anchor))
    } by {
        let i = rows[k];
        assert(rows.contains(i));
        labelled_rows_are_those_with_labels(src, theme, n, i);
        assert(upright.number_or("angle"@, i, Num { bits: 0 }).is_nought());
        assert(is_plan(plans[k], src, theme, projection, i));
        assert(is_plan(others[k], upright, theme, projection, i));
        row_turns_rigidly(src, upright, theme, projection, i);
    }
}

proof fn joined_turn(a: Seq<Step>, b: Seq<Step>, c: Seq<Step>, d: Seq<Step>, t: Xform)
    requires
        are_turned(a, b, t),
        are_turned(c, d, t),
    ensures
        are_turned(a + c, b + d, t),
{
    assert forall|j: int| 0 <= j < (a + c).len() implies {
        &&& (#[trigger] (a + c)[j]).when == (b + d)[j].when
        &&& (a + c)[j].op == with_xform((b + d)[j].op, t)
        &&& xform_in((a + c)[j].op) == t
        &&& xform_in((b + d)[j].op) == Xform::Identity
    } by {
        if j < a.len() {
            assert((a + c)[j] == a[j] && (b + d)[j] == b[j]);
        } else {
            assert((a + c)[j] == c[j - a.len()] && (b + d)[j] == d[j - a.len()]);
        }
    }
}

proof fn backdrops_turn(b: Backdrop, t: Xform, when: Cond)
    requires
        b.xform == Xform::Identity,
    ensures
        are_turned(
            backdrop_steps((Backdrop { xform: t, ..b }), when),
            backdrop_steps(b, when),
            t,
        ),
{
    let a = Backdrop { xform: t, ..b };
    let open = c_and(when, c_rect_open(b.rect));
    assert(are_turned(backdrop_fill(a, open), backdrop_fill(b, open), t));
    assert(are_turned(backdrop_stroke(a, open), backdrop_stroke(b, open), t));
    joined_turn(
        backdrop_fill(a, open),
        backdrop_fill(b, open),
        backdrop_stroke(a, open),
        backdrop_stroke(b, open),
        t,
    );
}

proof fn row_turns_rigidly(
    src: Source,
    upright: Source,
    theme: TextTheme,
    projection: Projection,
    i: int,
)
    requires
        src.same_but(upright, "angle"@),
        upright.number_or("angle"@, i, Num { bits: 0 }).is_nought(),
    ensures
        label_of(src, theme, i) == label_of(upright, theme, i),
        are_turned(
            row_steps(src, theme, projection, i),
            row_steps(upright, theme, projection, i),
            turned(
                src.number_or("angle"@, i, Num { bits: 0 }),
                anchor_of(upright, projection, i),
            ),
        ),
{
    all_but_angle_agrees(src, upright);
    let anchor = anchor_of(upright, projection, i);
    let t = turned(src.number_or("angle"@, i, Num { bits: 0 }), anchor);
    label_parts_agree(src, upright, theme, i);
    assert(src.value_at("weight"@, i) == upright.value_at("weight"@, i));
    places_agree(src, upright, projection, i);
    backdrops_agree(src, upright, theme, i, anchor);
    let a = backdrop_of(src, theme, i, anchor);
    let b = backdrop_of(upright, theme, i, anchor);
    assert(a == (Backdrop { xform: t, ..b }));
    assert(b.xform == Xform::Identity);
    let when = c_drawn(src, i);
    backdrops_turn(b, t, when);
    let s = glyph_steps(src, theme, i, anchor);
    let u = glyph_steps(upright, theme, i, anchor);
    assert(label_of(src, theme, i).fill == fill_of(src, theme, i));
    assert(are_turned(s, u, t));
    if has_bg(src, i) {
        joined_turn(backdrop_steps(a, when), backdrop_steps(b, when), s, u, t);
    } else {
        assert(row_steps(src, theme, projection, i) =~= s);
        assert(row_steps(upright, theme, projection, i) =~= u);
    }
}

/// Where a turned label's step puts a point is where the turn moves the point to
/// which the step of the label that is not turned puts it. Styled text is turned
/// in its own space, from its top left corner, and lands there too.
pub proof fn turned_steps_land_turned(
    s: Seq<Step>,
    upright: Seq<Step>,
    t: Xform,
    j: int,
    x: real,
    y: real,
    env: Env,
)
    requires
        are_turned(s, upright, t),
        0 <= j < s.len(),
    ensures
        ({
            let before = landing(xform_in(upright[j].op), x, y, env);
            landing(xform_in(s[j].op), x, y, env) == landing(t, before.0, before.1, env)
        }),
        s[j].op matches Op::RichText { at, xform, .. } ==> {
            let own = landing(in_layout_space(xform, at), x, y, env);
            let there = landing(t, x + value(at.x, env), y + value(at.y, env), env);
            own.0 + value(at.x, env) == there.0 && own.1 + value(at.y, env) == there.1
        },
{
    assert(xform_in(s[j].op) == t && xform_in(upright[j].op) == Xform::Identity);
    if let Op::RichText { at, xform, .. } = s[j].op {
        layout_space_lands_alike(xform, at, x, y, env);
    }
}

} // verus!
