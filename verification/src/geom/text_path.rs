//! Labels along curves, one for each mark.
//!
//! Rows with one key make a mark. Their points are the vertices of its curve, and
//! its first row supplies the rest: the text, how it is set, and where it lies on
//! the curve. Glyphs that would lie before the start of the curve or past its end
//! are left out.
//!
//! A label that is to be `upright` is turned round as a whole where most of its
//! glyphs would stand on their heads: it is read against the direction of the
//! curve, from the other end.

use std::sync::Arc;
use vstd::prelude::*;

use crate::channel::{CatalogEntry, Channel, ChannelDecl, ExpectedOutput, Keys};
use crate::expr::{
    c_and, c_finite, c_finite_positive, c_ge, c_gt, c_not, c_panel_open, c_positive, e_add,
    e_atan2, e_clamp, e_half, e_int, e_mul, e_neg, e_px, e_sub, holds, value, well_defined, Cond, Env,
    Expr, Quantity,
};
use crate::geom::builder::GeomBuilder;
use crate::geom::error::{BuildError, BuildFault};
use crate::geom::grouped::{
    are_drawn_marks, count_marks, diff_in_marks, diffed_in_marks, is_mark_count,
};
use crate::geom::label::{rich_key, Label};
use crate::geom::place::{fractions_at, fractions_of, moved, offset_point, start_names};
use crate::geom::rich::{shapes, RichShapeCache, RichWidth, StyleSheet};
use crate::geom::state::{
    build_fault, buildable, declares, finalize_state, freshly_built, has_x_and, keys_built,
    require_x_and_siblings, x_and_fault, GeomState, KeysStrategy,
};
use crate::marks::{are_marks_of, build_marks, MarkSlot};
use crate::num::Num;
use crate::pick::PickId;
use crate::projection::{Fractions, Projection};
use crate::resolve::{italic_in, pick_for, Bound, ScaleOutputs, Source};
use crate::scene::{HAlign, Paint, Point, Spacing, TextStyle};
use crate::theme::{black, default_fill, TextPathTheme};
use crate::value::DataColumn;

verus! {

/// The channels that the geom reads.
pub open spec fn catalog() -> Seq<CatalogEntry> {
    seq![
        ("x", ExpectedOutput::Numbers),
        ("y", ExpectedOutput::Numbers),
        ("x_offset", ExpectedOutput::Numbers),
        ("y_offset", ExpectedOutput::Numbers),
        ("x_band", ExpectedOutput::Numbers),
        ("y_band", ExpectedOutput::Numbers),
        ("text", ExpectedOutput::Strings),
        ("size", ExpectedOutput::Numbers),
        ("weight", ExpectedOutput::Numbers),
        ("italic", ExpectedOutput::Any),
        ("family", ExpectedOutput::Strings),
        ("tracking", ExpectedOutput::Numbers),
        ("markdown", ExpectedOutput::Any),
        ("underline", ExpectedOutput::Any),
        ("strikethrough", ExpectedOutput::Any),
        ("text_stroke", ExpectedOutput::Colors),
        ("text_linewidth", ExpectedOutput::Numbers),
        ("fill", ExpectedOutput::Colors),
        ("fill_opacity", ExpectedOutput::Numbers),
        ("offset", ExpectedOutput::Numbers),
        ("justify_x", ExpectedOutput::Numbers),
        ("upright", ExpectedOutput::Any),
        ("anchor_y", ExpectedOutput::Numbers),
        ("angle", ExpectedOutput::Numbers),
        ("pick_id", ExpectedOutput::Numbers),
    ]
}

fn catalog_entries() -> (r: Vec<CatalogEntry>)
    ensures
        r@ == catalog(),
{
    let r: Vec<CatalogEntry> = vec![
        ("x", ExpectedOutput::Numbers),
        ("y", ExpectedOutput::Numbers),
        ("x_offset", ExpectedOutput::Numbers),
        ("y_offset", ExpectedOutput::Numbers),
        ("x_band", ExpectedOutput::Numbers),
        ("y_band", ExpectedOutput::Numbers),
        ("text", ExpectedOutput::Strings),
        ("size", ExpectedOutput::Numbers),
        ("weight", ExpectedOutput::Numbers),
        ("italic", ExpectedOutput::Any),
        ("family", ExpectedOutput::Strings),
        ("tracking", ExpectedOutput::Numbers),
        ("markdown", ExpectedOutput::Any),
        ("underline", ExpectedOutput::Any),
        ("strikethrough", ExpectedOutput::Any),
        ("text_stroke", ExpectedOutput::Colors),
        ("text_linewidth", ExpectedOutput::Numbers),
        ("fill", ExpectedOutput::Colors),
        ("fill_opacity", ExpectedOutput::Numbers),
        ("offset", ExpectedOutput::Numbers),
        ("justify_x", ExpectedOutput::Numbers),
        ("upright", ExpectedOutput::Any),
        ("anchor_y", ExpectedOutput::Numbers),
        ("angle", ExpectedOutput::Numbers),
        ("pick_id", ExpectedOutput::Numbers),
    ];
    assert(r@ =~= catalog());
    r
}

/// The columns that have to be as long as `x`.
pub open spec fn required() -> Seq<&'static str> {
    seq!["y"]
}

/// How many rows the channels have.
pub open spec fn rows_of(channels: Map<Seq<char>, Channel>) -> nat {
    channels["x"@].column()->0.count()
}

/// Whether a geom of `n` rows can be built from these channels. The text may be
/// one for all marks.
pub open spec fn can_build(
    keys: Option<DataColumn>,
    channels: Map<Seq<char>, Channel>,
    n: nat,
) -> bool {
    &&& has_x_and(channels, required(), n)
    &&& channels.contains_key("text"@)
    &&& buildable(keys, channels, n, catalog())
}

/// Whether no geom can be built, and `e` says why.
pub open spec fn rejected(
    keys: Option<DataColumn>,
    channels: Map<Seq<char>, Channel>,
    e: BuildFault,
) -> bool {
    let n = rows_of(channels);
    &&& !can_build(keys, channels, n)
    &&& if !has_x_and(channels, required(), n) {
        x_and_fault(channels, required(), "TextPathGeom"@, e)
    } else if !channels.contains_key("text"@) {
        e == (BuildFault::MissingChannel { label: "TextPathGeom"@, name: "text"@ })
    } else {
        build_fault(keys, channels, n, catalog(), "TextPathGeom"@, e)
    }
}

/// Labels along curves, one for each mark.
pub struct TextPathGeom {
    /// The keys, channels and frame history.
    pub state: GeomState,
    /// The marks, where they are known.
    pub marks: Vec<MarkSlot>,
    /// The style sheet for markdown; the theme's where there is none.
    pub rich_sheet: Option<Arc<StyleSheet>>,
    /// The markdown that is shaped already.
    pub rich_cache: RichShapeCache,
}

impl TextPathGeom {
    /// Builds the geom.
    pub fn build_from(builder: GeomBuilder) -> (r: Result<TextPathGeom, BuildError>)
        ensures
            match r {
                Ok(g) => {
                    &&& can_build(builder.keys, builder.channels@, g.state.keys.count())
                    &&& freshly_built(
                        g.state,
                        builder.keys,
                        builder.channels@,
                        g.state.keys.count(),
                        KeysStrategy::OneMark,
                        g.state.declared@,
                    )
                    &&& declares(g.state.declared@, builder.channels@, catalog())
                    &&& g.state.wf()
                    &&& g.marks@.len() == 0
                    &&& g.rich_sheet is None
                    &&& g.rich_cache.keys@.len() == 0
                },
                Err(e) => rejected(builder.keys, builder.channels@, e@),
            },
    {
        let (keys_opt, channels) = builder.into_parts();
        let siblings = ["y"];
        assert(siblings@ =~= required());
        let n: usize = match require_x_and_siblings(&channels, &siblings, "TextPathGeom") {
            Ok(n) => n,
            Err(e) => return Err(e),
        };
        if !channels.contains("text") {
            return Err(
                BuildError::MissingChannel {
                    label: "TextPathGeom".to_owned(),
                    name: "text".to_owned(),
                },
            );
        }
        let entries = catalog_entries();
        match finalize_state(
            keys_opt,
            channels,
            n,
            KeysStrategy::OneMark,
            entries.as_slice(),
            "TextPathGeom",
        ) {
            Ok(state) => Ok(
                TextPathGeom {
                    state,
                    marks: Vec::new(),
                    rich_sheet: None,
                    rich_cache: RichShapeCache::new(),
                },
            ),
            Err(e) => Err(e),
        }
    }

    /// The marks of the current keys: each run of equal keys is one.
    pub fn build_marks(&self) -> (r: Vec<MarkSlot>)
        ensures
            are_marks_of(r@, self.state.keys),
    {
        build_marks(&self.state.keys)
    }

    /// How many marks there are.
    pub fn mark_count(&self) -> (r: usize)
        ensures
            is_mark_count(r as int, self.marks@, self.state.keys),
    {
        count_marks(&self.marks, &self.state.keys)
    }

    /// Diffs the marks against those of the frame before and makes this frame
    /// the one before. Nothing is done where the diff is up to date.
    pub fn rebuild_diff_against_previous(&mut self)
        ensures
            old(self).state.dirty ==> diffed_in_marks(
                final(self).state,
                old(self).state,
                final(self).marks@,
            ),
            !old(self).state.dirty ==> *final(self) == *old(self),
            final(self).rich_sheet == old(self).rich_sheet,
            final(self).rich_cache == old(self).rich_cache,
    {
        if let Some(marks) = diff_in_marks(&mut self.state) {
            self.marks = marks;
        }
    }

    /// Makes a style sheet that of every label in markdown, in place of the
    /// theme's.
    pub fn with_rich_sheet(self, sheet: Arc<StyleSheet>) -> (r: TextPathGeom)
        ensures
            r.rich_sheet == Some(sheet),
            r.state == self.state,
            r.marks == self.marks,
            r.rich_cache == self.rich_cache,
    {
        TextPathGeom {
            state: self.state,
            marks: self.marks,
            rich_sheet: Some(sheet),
            rich_cache: self.rich_cache,
        }
    }

    /// Makes a style sheet that of every label in markdown, in place of the
    /// theme's.
    pub fn set_rich_sheet(&mut self, sheet: Arc<StyleSheet>)
        ensures
            final(self).rich_sheet == Some(sheet),
            final(self).state == old(self).state,
            final(self).marks == old(self).marks,
            final(self).rich_cache == old(self).rich_cache,
    {
        self.rich_sheet = Some(sheet);
    }

    /// Goes back to the theme's style sheet.
    pub fn clear_rich_sheet(&mut self)
        ensures
            final(self).rich_sheet is None,
            final(self).state == old(self).state,
            final(self).marks == old(self).marks,
            final(self).rich_cache == old(self).rich_cache,
    {
        self.rich_sheet = None;
    }

    /// Forgets the markdown that is shaped already. What was shaped is found by
    /// its style sheet, so another sheet does not need this.
    pub fn clear_rich_cache(&mut self)
        ensures
            final(self).rich_cache.keys@.len() == 0,
            final(self).state == old(self).state,
            final(self).marks == old(self).marks,
            final(self).rich_sheet == old(self).rich_sheet,
    {
        self.rich_cache.clear();
    }

    /// The style sheet of labels in markdown.
    pub fn sheet_or<'a>(&'a self, theme: &'a Arc<StyleSheet>) -> (r: &'a Arc<StyleSheet>)
        ensures
            *r == match self.rich_sheet {
                Some(s) => s,
                None => *theme,
            },
    {
        match &self.rich_sheet {
            Some(s) => s,
            None => theme,
        }
    }

    /// Finds the shape of a label in markdown: the place of its shape, and
    /// whether it has still to be shaped.
    pub fn shape_mark(
        &mut self,
        theme: &Arc<StyleSheet>,
        label: &Label,
        palette: u64,
        dpi: Num,
    ) -> (r: (usize, bool))
        ensures
            ({
                let base = match old(self).rich_sheet {
                    Some(s) => s,
                    None => *theme,
                };
                let key = rich_key(
                    *label,
                    label.style.size_pt,
                    base.id,
                    palette,
                    None,
                    dpi,
                    RichWidth::Natural,
                );
                shapes(old(self).rich_cache, final(self).rich_cache, key, r.0, r.1)
            }),
            final(self).state == old(self).state,
            final(self).marks == old(self).marks,
            final(self).rich_sheet == old(self).rich_sheet,
    {
        let sheet: u64 = self.sheet_or(theme).id;
        let key = label.rich_key(
            label.style.size_pt,
            sheet,
            palette,
            None,
            dpi,
            RichWidth::Natural,
        );
        self.rich_cache.get_or_shape(key)
    }

    /// The geom's kind.
    pub fn kind(&self) -> (r: Option<&'static str>)
        ensures
            r is Some,
            r->0@ == "text-path"@,
    {
        Some("text-path")
    }

    /// Forgets the marks, and what was shaped.
    pub fn invalidate_caches(&mut self)
        ensures
            final(self).marks@.len() == 0,
            final(self).rich_cache.keys@.len() == 0,
            final(self).state == old(self).state,
            final(self).rich_sheet == old(self).rich_sheet,
    {
        self.marks = Vec::new();
        self.rich_cache.clear();
    }
}

impl TextPathGeom {
    /// Nothing to build from yet.
    pub fn builder() -> (r: GeomBuilder)
        ensures
            r.keys is None,
            r.channels@ == Map::<Seq<char>, Channel>::empty(),
    {
        GeomBuilder::new()
    }

    /// How many rows there are.
    pub fn len(&self) -> (r: usize)
        ensures
            r == self.state.keys.count(),
    {
        self.state.len()
    }

    /// Whether there is no row.
    pub fn is_empty(&self) -> (r: bool)
        ensures
            r == (self.state.keys.count() == 0),
    {
        self.state.is_empty()
    }

    /// The channels that the geom declares, by name.
    pub fn declared_channels(&self) -> (r: &Vec<ChannelDecl>)
        ensures
            *r == self.state.declared,
    {
        &self.state.declared
    }

    /// Replaces one channel. See [`GeomState::set`].
    pub fn set(&mut self, name: &str, value: Channel) -> (r: Result<(), BuildError>)
        ensures
            match r {
                Ok(_) => {
                    &&& value.column() is Some ==> value.column()->0.count()
                        == old(self).state.keys.count()
                    &&& final(self).state.channels@ == old(self).state.channels@.insert(name@, value)
                    &&& final(self).state.dirty
                    &&& final(self).state.same_but_channels(old(self).state)
                },
                Err(e) => {
                    &&& value.column() is Some
                    &&& value.column()->0.count() != old(self).state.keys.count()
                    &&& e@ == (BuildFault::SetLength {
                        name: name@,
                        len: value.column()->0.count(),
                        rows: old(self).state.keys.count(),
                    })
                    &&& final(self).state == old(self).state
                },
            },
            old(self).state.wf() ==> final(self).state.wf(),
            final(self).marks == old(self).marks,
            final(self).rich_sheet == old(self).rich_sheet,
            final(self).rich_cache == old(self).rich_cache,
    {
        self.state.set(name.to_owned(), value)
    }

    /// What the geom would be built from again: the start of an update.
    pub fn edit(&self) -> (r: GeomBuilder)
        ensures
            r.channels@ == self.state.channels@,
            match self.state.keys {
                Keys::Explicit(c) => r.keys == Some(c),
                Keys::Positional(_) => r.keys is None,
            },
    {
        GeomBuilder::from_state(&self.state)
    }

    /// Replaces the whole frame by what `builder` makes of it, and makes the
    /// current frame the one before. A frame that cannot be built changes
    /// nothing.
    pub fn update(&mut self, builder: GeomBuilder) -> (r: Result<(), BuildError>)
        ensures
            match r {
                Ok(_) => {
                    &&& can_build(builder.keys, builder.channels@, final(self).state.keys.count())
                    &&& final(self).state.prev_keys == old(self).state.keys
                    &&& final(self).state.prev_channels == old(self).state.channels
                    &&& final(self).state.channels@ == builder.channels@
                    &&& keys_built(
                        final(self).state.keys,
                        builder.keys,
                        final(self).state.keys.count(),
                        KeysStrategy::OneMark,
                    )
                    &&& declares(final(self).state.declared@, builder.channels@, catalog())
                    &&& final(self).state.dirty
                    &&& final(self).state.wf()
                    &&& final(self).marks@.len() == 0
                    &&& final(self).rich_sheet == old(self).rich_sheet
                    &&& final(self).rich_cache.keys@.len() == 0
                },
                Err(e) => rejected(builder.keys, builder.channels@, e@) && *final(self) == *old(
                    self,
                ),
            },
    {
        match Self::build_from(builder) {
            Ok(new) => {
                self.state.replace_current_with(new.state);
                self.invalidate_caches();
                Ok(())
            },
            Err(e) => Err(e),
        }
    }
}

/// A vertex of the curve of a mark.
#[derive(Debug)]
pub struct PathVertex {
    /// The row.
    pub row: usize,
    /// Where it lies, as fractions of the panel.
    pub frac: Fractions,
    /// Whether it lies anywhere. If not, the curve leaves it out.
    pub placed: Cond,
    /// Where it lies, in pixels.
    pub at: Point,
}

/// The outline of the glyphs of a label.
#[derive(Debug)]
pub struct PathOutline {
    /// Its colour.
    pub paint: Paint,
    /// How wide it is, in pixels.
    pub width: Expr,
    /// Whether it has any width.
    pub when: Cond,
}

/// A label along a curve.
#[derive(Debug)]
pub struct PathLabel {
    /// The label. It is shaped on one line.
    pub label: Label,
    /// When it is drawn at all, the length of its curve given.
    pub when: Cond,
    /// The vertices of its curve.
    pub vertices: Vec<PathVertex>,
    /// The outline of its glyphs, which hits pass through.
    pub outline: Option<PathOutline>,
    /// How far along the curve it starts, in points.
    pub offset: Num,
    /// How much of the curve that is left over lies before it.
    pub justify: Num,
    /// Whether it is turned round where it would stand on its head.
    pub upright: bool,
    /// Where down the label the curve runs.
    pub anchor: Num,
    /// How far each glyph is turned on its spot.
    pub angle: Num,
    /// What it hit-tests as.
    pub pick: PickId,
}

/// A part of a curve.
#[derive(Clone, Copy, Debug, PartialEq, Eq, Structural)]
pub enum CurvePart {
    /// The points between two vertices, where the projection bends lines.
    Between(usize, usize),
    /// A vertex.
    Vertex(usize),
}

/// The last vertex before `n` that lies somewhere.
pub open spec fn last_placed(placed: Seq<bool>, n: nat) -> Option<usize>
    decreases n,
{
    if n == 0 {
        None
    } else if placed[n - 1] {
        Some((n - 1) as usize)
    } else {
        last_placed(placed, (n - 1) as nat)
    }
}

/// The curve through the first `n` vertices, those left out that lie nowhere.
pub open spec fn parts_of(linear: bool, placed: Seq<bool>, n: nat) -> Seq<CurvePart>
    decreases n,
{
    if n == 0 {
        Seq::empty()
    } else {
        let before = parts_of(linear, placed, (n - 1) as nat);
        let v = CurvePart::Vertex((n - 1) as usize);
        if !placed[n - 1] {
            before
        } else {
            match last_placed(placed, (n - 1) as nat) {
                Some(p) => if linear {
                    before.push(v)
                } else {
                    before.push(CurvePart::Between(p, (n - 1) as usize)).push(v)
                },
                None => before.push(v),
            }
        }
    }
}

/// The curve through the vertices that lie somewhere, in order. Where the
/// projection bends lines, the points between each two of them come too.
pub fn curve_parts(linear: bool, placed: &[bool]) -> (r: Vec<CurvePart>)
    ensures
        r@ == parts_of(linear, placed@, placed@.len()),
{
    let mut r: Vec<CurvePart> = Vec::new();
    let mut last: Option<usize> = None;
    let mut i: usize = 0;
    while i < placed.len()
        invariant
            i <= placed@.len(),
            last == last_placed(placed@, i as nat),
            r@ == parts_of(linear, placed@, i as nat),
        decreases placed@.len() - i,
    {
        if placed[i] {
            if let Some(p) = last {
                if !linear {
                    r.push(CurvePart::Between(p, i));
                }
            }
            r.push(CurvePart::Vertex(i));
            last = Some(i);
        }
        i = i + 1;
    }
    r
}

/// Whether points make a curve that a label can follow.
pub fn is_curve(points: usize) -> (r: bool)
    ensures
        r == (points >= 2),
{
    points >= 2
}

/// How many of the first `n` glyphs were found on the curve.
pub open spec fn found(leftward: Seq<Option<bool>>, n: nat) -> nat
    decreases n,
{
    if n == 0 {
        0
    } else {
        found(leftward, (n - 1) as nat) + if leftward[n - 1] is Some {
            1nat
        } else {
            0nat
        }
    }
}

/// How many of the first `n` glyphs stand on their heads.
pub open spec fn upended(leftward: Seq<Option<bool>>, n: nat) -> nat
    decreases n,
{
    if n == 0 {
        0
    } else {
        upended(leftward, (n - 1) as nat) + if leftward[n - 1] == Some(true) {
            1nat
        } else {
            0nat
        }
    }
}

/// Whether most of the glyphs that were found stand on their heads.
pub open spec fn mostly_upended(leftward: Seq<Option<bool>>) -> bool {
    2 * upended(leftward, leftward.len()) > found(leftward, leftward.len())
}

/// A glyph on the curve. It is turned by an angle, and then put down so that
/// its own origin, moved by `shift`, lies on the curve.
#[derive(Debug)]
pub struct Stamp {
    /// Whether it lies on the curve. If not, it is left out.
    pub when: Cond,
    /// Where along the curve it lies.
    pub along: Expr,
    /// How far it is turned.
    pub angle: Expr,
    /// The point of the curve.
    pub at: Point,
    /// How far it is moved first.
    pub shift: Point,
}

/// A rule along the curve. Between its ends it bends at each corner of the curve:
/// see [`rule_stops`].
#[derive(Debug)]
pub struct CurvedRule {
    /// Whether there is any of it on the curve.
    pub when: Cond,
    /// Where along the curve it starts.
    pub from: Expr,
    /// Where along the curve it ends.
    pub to: Expr,
    /// The point of the rule beside a point of the curve.
    pub at: Point,
    /// How thick it is, in pixels.
    pub thickness: Expr,
}

/// One thing to draw for a label.
#[derive(Clone, Copy, Debug, PartialEq, Eq, Structural)]
pub enum PathOp {
    /// A rule.
    Rule(usize),
    /// The outline of a glyph.
    Outline(usize),
    /// A glyph.
    Glyph(usize),
}

/// The first `n` rules.
pub open spec fn rule_ops(n: nat) -> Seq<PathOp> {
    Seq::new(n, |k: int| PathOp::Rule(k as usize))
}

/// The first `n` glyphs, each with its outline before it where there is one.
pub open spec fn glyph_ops(outlined: bool, n: nat) -> Seq<PathOp>
    decreases n,
{
    if n == 0 {
        Seq::empty()
    } else {
        let k = (n - 1) as usize;
        let before = glyph_ops(outlined, (n - 1) as nat);
        if outlined {
            before.push(PathOp::Outline(k)).push(PathOp::Glyph(k))
        } else {
            before.push(PathOp::Glyph(k))
        }
    }
}

/// What is drawn for a label, in order: its rules, then its glyphs. Without
/// glyphs there is nothing to draw.
pub open spec fn ops_of(outlined: bool, rules: nat, glyphs: nat) -> Seq<PathOp> {
    if glyphs == 0 {
        Seq::empty()
    } else {
        rule_ops(rules) + glyph_ops(outlined, glyphs)
    }
}

/// The part of the curve that a label leaves over.
pub open spec fn e_slack() -> Expr {
    e_sub(Expr::Var(Quantity::PathLength), Expr::Var(Quantity::TextWidth))
}

/// Half the width of a glyph.
pub open spec fn e_half_advance() -> Expr {
    e_mul(Expr::Var(Quantity::GlyphAdvance), e_half())
}

/// How high a label is.
pub open spec fn e_body() -> Expr {
    e_add(Expr::Var(Quantity::TextAscent), Expr::Var(Quantity::TextDescent))
}

/// How much of the curve lies before a label. On a label that is turned round
/// the two ends change places.
pub open spec fn shift_of(justify: Num, flipped: bool) -> Expr {
    if flipped {
        e_mul(e_sub(e_int(1), Expr::Lit(justify)), e_slack())
    } else {
        e_mul(Expr::Lit(justify), e_slack())
    }
}

/// How far beside the curve the baseline runs, to the right of the direction of
/// reading.
pub open spec fn baseline_of(anchor: Num, flipped: bool) -> Expr {
    if flipped {
        e_sub(e_mul(Expr::Lit(anchor), e_body()), Expr::Var(Quantity::TextDescent))
    } else {
        e_sub(Expr::Var(Quantity::TextAscent), e_mul(Expr::Lit(anchor), e_body()))
    }
}

/// How far along the direction of reading a glyph lies.
pub open spec fn glyph_distance(offset: Num, justify: Num, flipped: bool) -> Expr {
    e_add(
        e_add(
            e_add(e_px(Expr::Lit(offset)), shift_of(justify, flipped)),
            Expr::Var(Quantity::GlyphX),
        ),
        e_half_advance(),
    )
}

/// The sampled tangent, in the direction of reading.
pub open spec fn e_tangent(q: Quantity, flipped: bool) -> Expr {
    if flipped {
        e_neg(Expr::Var(q))
    } else {
        Expr::Var(q)
    }
}

/// A glyph on the curve.
pub open spec fn stamp_of(
    offset: Num,
    justify: Num,
    anchor: Num,
    angle: Num,
    flipped: bool,
) -> Stamp {
    let d = glyph_distance(offset, justify, flipped);
    let length = Expr::Var(Quantity::PathLength);
    Stamp {
        when: c_and(c_finite(d), c_and(c_ge(d, e_int(0)), c_ge(length, d))),
        along: if flipped {
            e_sub(length, d)
        } else {
            d
        },
        angle: e_add(
            e_atan2(
                e_tangent(Quantity::TangentY, flipped),
                e_tangent(Quantity::TangentX, flipped),
            ),
            e_neg(Expr::Lit(angle)),
        ),
        at: Point { x: Expr::Var(Quantity::SampleX), y: Expr::Var(Quantity::SampleY) },
        shift: Point {
            x: e_neg(e_half_advance()),
            y: e_add(baseline_of(anchor, flipped), Expr::Var(Quantity::GlyphDy)),
        },
    }
}

/// Where along the direction of reading a rule starts or ends, as far as the
/// curve goes.
pub open spec fn rule_end(offset: Num, justify: Num, flipped: bool, q: Quantity) -> Expr {
    e_clamp(
        rule_distance(offset, justify, flipped, q),
        e_int(0),
        Expr::Var(Quantity::PathLength),
    )
}

/// Where along the direction of reading a rule starts or ends.
pub open spec fn rule_distance(offset: Num, justify: Num, flipped: bool, q: Quantity) -> Expr {
    e_add(e_add(e_px(Expr::Lit(offset)), shift_of(justify, flipped)), Expr::Var(q))
}

/// How far beside the curve a rule runs, to the right of the curve's own
/// direction.
pub open spec fn rule_beside(anchor: Num, flipped: bool) -> Expr {
    let perp = e_add(baseline_of(anchor, flipped), Expr::Var(Quantity::RuleDy));
    if flipped {
        e_neg(perp)
    } else {
        perp
    }
}

/// A rule along the curve.
pub open spec fn rule_of(offset: Num, justify: Num, anchor: Num, flipped: bool) -> CurvedRule {
    let d0 = rule_distance(offset, justify, flipped, Quantity::RuleX0);
    let d1 = rule_distance(offset, justify, flipped, Quantity::RuleX1);
    let lo = rule_end(offset, justify, flipped, Quantity::RuleX0);
    let hi = rule_end(offset, justify, flipped, Quantity::RuleX1);
    let length = Expr::Var(Quantity::PathLength);
    let thickness = Expr::Var(Quantity::RuleThickness);
    let beside = rule_beside(anchor, flipped);
    CurvedRule {
        when: c_and(
            c_finite_positive(thickness),
            c_and(c_and(c_finite(d0), c_finite(d1)), c_gt(hi, lo)),
        ),
        from: if flipped {
            e_sub(length, hi)
        } else {
            lo
        },
        to: if flipped {
            e_sub(length, lo)
        } else {
            hi
        },
        at: Point {
            x: e_add(
                Expr::Var(Quantity::SampleX),
                e_mul(e_neg(Expr::Var(Quantity::TangentY)), beside),
            ),
            y: e_add(
                Expr::Var(Quantity::SampleY),
                e_mul(Expr::Var(Quantity::TangentX), beside),
            ),
        },
        thickness,
    }
}

fn shift_for(justify: Num, flipped: bool) -> (r: Expr)
    ensures
        r == shift_of(justify, flipped),
{
    let slack = Expr::Var(Quantity::PathLength).minus(Expr::Var(Quantity::TextWidth));
    if flipped {
        Expr::Ratio(1, 1).minus(Expr::Lit(justify)).times(slack)
    } else {
        Expr::Lit(justify).times(slack)
    }
}

fn baseline_for(anchor: Num, flipped: bool) -> (r: Expr)
    ensures
        r == baseline_of(anchor, flipped),
{
    let body = Expr::Var(Quantity::TextAscent).plus(Expr::Var(Quantity::TextDescent));
    let down = Expr::Lit(anchor).times(body);
    if flipped {
        down.minus(Expr::Var(Quantity::TextDescent))
    } else {
        Expr::Var(Quantity::TextAscent).minus(down)
    }
}

fn distance_for(offset: Num, justify: Num, flipped: bool) -> (r: Expr)
    ensures
        r == glyph_distance(offset, justify, flipped),
{
    let half = Expr::Var(Quantity::GlyphAdvance).times(Expr::Ratio(1, 2));
    Expr::Lit(offset).in_px().plus(shift_for(justify, flipped)).plus(
        Expr::Var(Quantity::GlyphX),
    ).plus(half)
}

fn tangent_for(q: Quantity, flipped: bool) -> (r: Expr)
    ensures
        r == e_tangent(q, flipped),
{
    if flipped {
        Expr::Var(q).negated()
    } else {
        Expr::Var(q)
    }
}

impl PathLabel {
    /// Where along the curve the tangent of a glyph is looked at, to see
    /// whether the label stands on its head, and when it is.
    pub fn probe(&self) -> (r: (Expr, Cond))
        ensures
            r.0 == e_clamp(
                glyph_distance(self.offset, self.justify, false),
                e_int(0),
                Expr::Var(Quantity::PathLength),
            ),
            r.1 == c_finite(glyph_distance(self.offset, self.justify, false)),
    {
        let d = distance_for(self.offset, self.justify, false);
        let when = d.is_finite();
        (d.kept_between(Expr::Ratio(0, 1), Expr::Var(Quantity::PathLength)), when)
    }

    /// Whether the label is turned round as a whole: it is to be upright, and
    /// most of its glyphs would stand on their heads. For each glyph
    /// `leftward` says whether the curve runs leftward there, if the glyph was
    /// found on it.
    pub fn is_flipped(&self, leftward: &[Option<bool>]) -> (r: bool)
        ensures
            r == (self.upright && mostly_upended(leftward@)),
    {
        if !self.upright {
            return false;
        }
        let mut counted: usize = 0;
        let mut upside_down: usize = 0;
        let mut i: usize = 0;
        while i < leftward.len()
            invariant
                i <= leftward@.len(),
                counted == found(leftward@, i as nat),
                upside_down == upended(leftward@, i as nat),
                upside_down <= counted <= i,
            decreases leftward@.len() - i,
        {
            match leftward[i] {
                Some(true) => {
                    counted = counted + 1;
                    upside_down = upside_down + 1;
                },
                Some(false) => {
                    counted = counted + 1;
                },
                None => {},
            }
            i = i + 1;
        }
        upside_down > counted - upside_down
    }

    /// How a glyph is put on the curve.
    pub fn stamp(&self, flipped: bool) -> (r: Stamp)
        ensures
            r == stamp_of(self.offset, self.justify, self.anchor, self.angle, flipped),
    {
        let d = distance_for(self.offset, self.justify, flipped);
        let length = Expr::Var(Quantity::PathLength);
        let when = d.is_finite().and(
            Cond::ge(d.again(), Expr::Ratio(0, 1)).and(Cond::ge(length.again(), d.again())),
        );
        let along = if flipped {
            length.minus(d)
        } else {
            d
        };
        let tangent = Expr::angle_of(
            tangent_for(Quantity::TangentY, flipped),
            tangent_for(Quantity::TangentX, flipped),
        );
        let half = Expr::Var(Quantity::GlyphAdvance).times(Expr::Ratio(1, 2));
        Stamp {
            when,
            along,
            angle: tangent.plus(Expr::Lit(self.angle).negated()),
            at: Point { x: Expr::Var(Quantity::SampleX), y: Expr::Var(Quantity::SampleY) },
            shift: Point {
                x: half.negated(),
                y: baseline_for(self.anchor, flipped).plus(Expr::Var(Quantity::GlyphDy)),
            },
        }
    }

    /// How a rule is drawn along the curve. It bends with the curve, and is not
    /// turned with the glyphs.
    pub fn rule(&self, flipped: bool) -> (r: CurvedRule)
        ensures
            r == rule_of(self.offset, self.justify, self.anchor, flipped),
    {
        let start = Expr::Lit(self.offset).in_px().plus(shift_for(self.justify, flipped));
        let d0 = start.again().plus(Expr::Var(Quantity::RuleX0));
        let d1 = start.plus(Expr::Var(Quantity::RuleX1));
        let length = Expr::Var(Quantity::PathLength);
        let lo = d0.again().kept_between(Expr::Ratio(0, 1), length.again());
        let hi = d1.again().kept_between(Expr::Ratio(0, 1), length.again());
        let thickness = Expr::Var(Quantity::RuleThickness);
        let when = thickness.is_finite_positive().and(
            d0.is_finite().and(d1.is_finite()).and(Cond::gt(hi.again(), lo.again())),
        );
        let perp = baseline_for(self.anchor, flipped).plus(Expr::Var(Quantity::RuleDy));
        let beside = if flipped {
            perp.negated()
        } else {
            perp
        };
        let at = Point {
            x: Expr::Var(Quantity::SampleX).plus(
                Expr::Var(Quantity::TangentY).negated().times(beside.again()),
            ),
            y: Expr::Var(Quantity::SampleY).plus(Expr::Var(Quantity::TangentX).times(beside)),
        };
        if flipped {
            CurvedRule {
                when,
                from: length.again().minus(hi),
                to: length.minus(lo),
                at,
                thickness,
            }
        } else {
            CurvedRule { when, from: lo, to: hi, at, thickness }
        }
    }

    /// What is drawn, in order.
    pub fn ops(&self, rules: usize, glyphs: usize) -> (r: Vec<PathOp>)
        ensures
            r@ == ops_of(self.outline is Some, rules as nat, glyphs as nat),
    {
        let mut r: Vec<PathOp> = Vec::new();
        if glyphs == 0 {
            return r;
        }
        let outlined = self.outline.is_some();
        let mut i: usize = 0;
        while i < rules
            invariant
                i <= rules,
                r@ == rule_ops(i as nat),
            decreases rules - i,
        {
            r.push(PathOp::Rule(i));
            i = i + 1;
            assert(r@ =~= rule_ops(i as nat));
        }
        let mut k: usize = 0;
        assert(r@ =~= rule_ops(rules as nat) + glyph_ops(outlined, 0));
        while k < glyphs
            invariant
                k <= glyphs,
                outlined == (self.outline is Some),
                r@ == rule_ops(rules as nat) + glyph_ops(outlined, k as nat),
            decreases glyphs - k,
        {
            if outlined {
                r.push(PathOp::Outline(k));
            }
            r.push(PathOp::Glyph(k));
            k = k + 1;
            assert(r@ =~= rule_ops(rules as nat) + glyph_ops(outlined, k as nat));
        }
        r
    }
}

/// Those of the first `n` corners that lie strictly between two distances.
pub open spec fn corners_between(corners: Seq<Num>, from: Num, to: Num, n: nat) -> Seq<Num>
    decreases n,
{
    if n == 0 {
        Seq::empty()
    } else {
        let before = corners_between(corners, from, to, (n - 1) as nat);
        if from.less(corners[n - 1]) && corners[n - 1].less(to) {
            before.push(corners[n - 1])
        } else {
            before
        }
    }
}

/// The distances along the curve that a rule runs through: its start, every
/// corner of the curve strictly between its ends, and its end. `corners` are the
/// distances of the curve's vertices.
pub fn rule_stops(from: Num, to: Num, corners: &[Num]) -> (r: Vec<Num>)
    ensures
        r@ == seq![from] + corners_between(corners@, from, to, corners@.len()) + seq![to],
{
    let mut r: Vec<Num> = Vec::new();
    r.push(from);
    let mut i: usize = 0;
    assert(r@ =~= seq![from] + corners_between(corners@, from, to, 0));
    while i < corners.len()
        invariant
            i <= corners@.len(),
            r@ == seq![from] + corners_between(corners@, from, to, i as nat),
        decreases corners@.len() - i,
    {
        let d: Num = corners[i];
        if from.is_less(d) && d.is_less(to) {
            r.push(d);
        }
        i = i + 1;
        assert(r@ =~= seq![from] + corners_between(corners@, from, to, i as nat));
    }
    r.push(to);
    assert(r@ =~= seq![from] + corners_between(corners@, from, to, i as nat) + seq![to]);
    r
}

/// A rule keeps every corner of the curve strictly between its ends, and has no
/// others.
pub proof fn rules_keep_corners(corners: Seq<Num>, from: Num, to: Num, n: nat, d: Num)
    requires
        n <= corners.len(),
    ensures
        corners_between(corners, from, to, n).contains(d) <==> corners.take(n as int).contains(d)
            && from.less(d) && d.less(to),
    decreases n,
{
    let kept = corners_between(corners, from, to, n);
    if n > 0 {
        rules_keep_corners(corners, from, to, (n - 1) as nat, d);
        let before = corners_between(corners, from, to, (n - 1) as nat);
        let c = corners[n - 1];
        let head = corners.take(n - 1);
        let all = corners.take(n as int);
        assert(all =~= head.push(c));
        if head.contains(d) {
            let i = choose|i: int| 0 <= i < head.len() && head[i] == d;
            assert(all[i] == d);
        }
        assert(all[n - 1] == c);
        if all.contains(d) && d != c {
            let i = choose|i: int| 0 <= i < all.len() && all[i] == d;
            assert(head[i] == d);
        }
        if before.contains(d) {
            let i = choose|i: int| 0 <= i < before.len() && before[i] == d;
            assert(kept[i] == d);
        }
        if from.less(c) && c.less(to) {
            assert(kept[before.len() as int] == c);
            if kept.contains(d) && d != c {
                let i = choose|i: int| 0 <= i < kept.len() && kept[i] == d;
                assert(before[i] == d);
            }
        }
    }
}

/// The text of the mark that starts at row `i`; none where there is nothing to
/// draw.
pub open spec fn text_of(src: Source, i: int) -> Option<String> {
    match src.string_at("text"@, i) {
        Some(s) => if s@.len() == 0 {
            None
        } else {
            Some(s)
        },
        None => None,
    }
}

/// The font weight of the mark that starts at row `i`.
pub open spec fn weight_of(src: Source, i: int, default: u16) -> u16 {
    match src.number_at("weight"@, i) {
        Some(n) => choose|w: u16| n.is_nearest_between(1, 1000, w),
        None => default,
    }
}

/// The font size of the mark that starts at row `i`, in points.
pub open spec fn size_of(src: Source, theme: TextPathTheme, i: int) -> Num {
    src.number_or("size"@, i, theme.size_pt)
}

/// How the mark that starts at row `i` is set.
pub open spec fn style_of(src: Source, theme: TextPathTheme, i: int) -> TextStyle {
    TextStyle {
        size_pt: size_of(src, theme, i),
        weight: weight_of(src, i, theme.weight),
        italic: italic_in(src.value_at("italic"@, i)),
        spacing: Spacing::Tracking(src.number_or("tracking"@, i, theme.tracking)),
        underline: src.bool_or("underline"@, i, theme.underline),
        strikethrough: src.bool_or("strikethrough"@, i, theme.strikethrough),
        family: src.string_at("family"@, i),
    }
}

/// What the glyphs of the mark that starts at row `i` are filled with.
pub open spec fn fill_of(src: Source, theme: TextPathTheme, i: int) -> Paint {
    match src.paint_of(src.color_or("fill"@, i, theme.fill), "fill_opacity"@, i) {
        Some(p) => p,
        None => Paint { color: black(), opacity: None },
    }
}

/// The outline of the mark that starts at row `i`: none without a colour or a
/// width.
pub open spec fn outline_of(src: Source, theme: TextPathTheme, i: int) -> Option<PathOutline> {
    let width = src.number_or("text_linewidth"@, i, theme.text_linewidth_pt);
    match src.color_or("text_stroke"@, i, theme.text_stroke) {
        Some(color) => if width.above_zero() {
            Some(
                PathOutline {
                    paint: Paint { color, opacity: None },
                    width: e_px(Expr::Lit(width)),
                    when: c_positive(e_px(Expr::Lit(width))),
                },
            )
        } else {
            None
        },
        None => None,
    }
}

/// The label of the mark that starts at row `i`. It is never broken into lines.
pub open spec fn label_of(src: Source, theme: TextPathTheme, i: int) -> Label {
    Label {
        row: i as usize,
        text: text_of(src, i)->0,
        style: style_of(src, theme, i),
        markdown: src.bool_or("markdown"@, i, theme.markdown),
        fill: fill_of(src, theme, i),
        outline: None,
        align: HAlign::Start,
        wrap: e_int(0),
        wraps: c_not(Cond::Always),
    }
}

/// Whether the mark that starts at row `i` has a label: a text, in a font of
/// some size.
pub open spec fn has_label(src: Source, theme: TextPathTheme, i: int) -> bool {
    &&& text_of(src, i) is Some
    &&& size_of(src, theme, i).finite()
    &&& size_of(src, theme, i).above_zero()
}

/// The vertex of row `i`.
pub open spec fn vertex_of(src: Source, projection: Projection, i: int) -> PathVertex {
    let f = fractions_at(src, "x"@, "y"@, "x_band"@, "y_band"@, i);
    PathVertex {
        row: i as usize,
        frac: f,
        placed: c_and(c_finite(f.a), c_finite(f.b)),
        at: moved(src, projection.point_at(f.a, f.b), "x_offset"@, "y_offset"@, i),
    }
}

/// Half.
pub const HALF: u64 = 0x3FE0_0000_0000_0000;

/// Whether `p` is the plan for a mark: everything but its vertices comes from
/// its first row.
pub open spec fn is_plan(
    p: PathLabel,
    src: Source,
    theme: TextPathTheme,
    projection: Projection,
    mark: MarkSlot,
) -> bool {
    let i = mark.first_row as int;
    &&& p.label == label_of(src, theme, i)
    &&& p.when == c_and(c_panel_open(), c_positive(Expr::Var(Quantity::PathLength)))
    &&& p.vertices@ == Seq::new(
        mark.rows@.len(),
        |k: int| vertex_of(src, projection, mark.rows@[k] as int),
    )
    &&& p.outline == outline_of(src, theme, i)
    &&& p.offset == src.number_or("offset"@, i, Num { bits: 0 })
    &&& p.justify == src.number_or("justify_x"@, i, Num { bits: 0 })
    &&& p.upright == src.bool_or("upright"@, i, false)
    &&& p.anchor == src.number_or("anchor_y"@, i, Num { bits: HALF })
    &&& p.angle == src.number_or("angle"@, i, Num { bits: 0 })
    &&& p.pick == pick_for(src.number_at("pick_id"@, i))
}

/// Those of the first `n` marks that have a label, in order.
pub open spec fn labelled_marks(
    src: Source,
    theme: TextPathTheme,
    marks: Seq<MarkSlot>,
    n: nat,
) -> Seq<MarkSlot>
    decreases n,
{
    if n == 0 {
        Seq::empty()
    } else {
        let before = labelled_marks(src, theme, marks, (n - 1) as nat);
        if has_label(src, theme, marks[n - 1].first_row as int) {
            before.push(marks[n - 1])
        } else {
            before
        }
    }
}

/// Whether `plans` are those of the first `n` marks, for each mark with a label
/// one.
pub open spec fn are_plans(
    plans: Seq<PathLabel>,
    src: Source,
    theme: TextPathTheme,
    projection: Projection,
    marks: Seq<MarkSlot>,
    n: nat,
) -> bool {
    let labelled = labelled_marks(src, theme, marks, n);
    &&& plans.len() == labelled.len()
    &&& forall|k: int|
        0 <= k < plans.len() ==> is_plan(#[trigger] plans[k], src, theme, projection, labelled[k])
}

fn style_for(src: &Bound, theme: &TextPathTheme, i: usize, size_pt: Num) -> (r: TextStyle)
    requires
        size_pt == size_of(src@, *theme, i as int),
    ensures
        r == style_of(src@, *theme, i as int),
{
    let weight: u16 = match src.number_at("weight", i) {
        Some(n) => n.nearest_between(1, 1000),
        None => theme.weight,
    };
    TextStyle {
        size_pt,
        weight,
        italic: src.italic_at("italic", i),
        spacing: Spacing::Tracking(src.number_or("tracking", i, theme.tracking)),
        underline: src.bool_or("underline", i, theme.underline),
        strikethrough: src.bool_or("strikethrough", i, theme.strikethrough),
        family: src.string_at("family", i),
    }
}

fn outline_for(src: &Bound, theme: &TextPathTheme, i: usize) -> (r: Option<PathOutline>)
    ensures
        r == outline_of(src@, *theme, i as int),
{
    let pt: Num = src.number_or("text_linewidth", i, theme.text_linewidth_pt);
    match src.color_or("text_stroke", i, theme.text_stroke) {
        Some(color) => if pt.is_above_zero() {
            let width = Expr::Lit(pt).in_px();
            let when = width.is_positive();
            Some(PathOutline { paint: Paint { color, opacity: None }, width, when })
        } else {
            None
        },
        None => None,
    }
}

fn label_for(src: &Bound, theme: &TextPathTheme, i: usize, text: String, size_pt: Num) -> (r: Label)
    requires
        text_of(src@, i as int) == Some(text),
        size_pt == size_of(src@, *theme, i as int),
    ensures
        r == label_of(src@, *theme, i as int),
{
    let fill = match src.paint_of(src.color_or("fill", i, theme.fill), "fill_opacity", i) {
        Some(p) => p,
        None => Paint { color: default_fill(), opacity: None },
    };
    Label {
        row: i,
        text,
        style: style_for(src, theme, i, size_pt),
        markdown: src.bool_or("markdown", i, theme.markdown),
        fill,
        outline: None,
        align: HAlign::Start,
        wrap: Expr::Ratio(0, 1),
        wraps: Cond::Always.negated(),
    }
}

fn vertices_for(src: &Bound, projection: &Projection, rows: &Vec<usize>) -> (r: Vec<PathVertex>)
    requires
        src@.places_rows("x"@),
        src@.places_rows("y"@),
    ensures
        r@ == Seq::new(rows@.len(), |k: int| vertex_of(src@, *projection, rows@[k] as int)),
{
    let names = start_names();
    let mut r: Vec<PathVertex> = Vec::new();
    let mut j: usize = 0;
    while j < rows.len()
        invariant
            j <= rows@.len(),
            src@.places_rows("x"@),
            src@.places_rows("y"@),
            names.x@ == "x"@,
            names.y@ == "y"@,
            names.x_band@ == "x_band"@,
            names.y_band@ == "y_band"@,
            names.x_offset@ == "x_offset"@,
            names.y_offset@ == "y_offset"@,
            r@ == Seq::new(j as nat, |k: int| vertex_of(src@, *projection, rows@[k] as int)),
        decreases rows@.len() - j,
    {
        let i: usize = rows[j];
        let frac = fractions_of(src, &names, i);
        let at = offset_point(src, projection.project(&frac.a, &frac.b), &names, i);
        let placed = frac.a.is_finite().and(frac.b.is_finite());
        r.push(PathVertex { row: i, frac, placed, at });
        j = j + 1;
        assert(r@ =~= Seq::new(j as nat, |k: int| vertex_of(src@, *projection, rows@[k] as int)));
    }
    r
}

fn plan_mark(
    src: &Bound,
    theme: &TextPathTheme,
    projection: &Projection,
    mark: &MarkSlot,
    text: String,
    size_pt: Num,
) -> (r: PathLabel)
    requires
        src@.places_rows("x"@),
        src@.places_rows("y"@),
        text_of(src@, mark.first_row as int) == Some(text),
        size_pt == size_of(src@, *theme, mark.first_row as int),
    ensures
        is_plan(r, src@, *theme, *projection, *mark),
{
    let i: usize = mark.first_row;
    PathLabel {
        label: label_for(src, theme, i, text, size_pt),
        when: Cond::panel_open().and(Expr::Var(Quantity::PathLength).is_positive()),
        vertices: vertices_for(src, projection, &mark.rows),
        outline: outline_for(src, theme, i),
        offset: src.number_or("offset", i, Num { bits: 0 }),
        justify: src.number_or("justify_x", i, Num { bits: 0 }),
        upright: src.bool_or("upright", i, false),
        anchor: src.number_or("anchor_y", i, Num { bits: HALF }),
        angle: src.number_or("angle", i, Num { bits: 0 }),
        pick: src.pick_at("pick_id", i),
    }
}

fn plan_marks(
    src: &Bound,
    theme: &TextPathTheme,
    projection: &Projection,
    marks: &Vec<MarkSlot>,
) -> (r: Vec<PathLabel>)
    requires
        src@.places_rows("x"@),
        src@.places_rows("y"@),
    ensures
        are_plans(r@, src@, *theme, *projection, marks@, marks@.len()),
{
    let mut out: Vec<PathLabel> = Vec::new();
    let mut m: usize = 0;
    while m < marks.len()
        invariant
            m <= marks@.len(),
            src@.places_rows("x"@),
            src@.places_rows("y"@),
            are_plans(out@, src@, *theme, *projection, marks@, m as nat),
        decreases marks@.len() - m,
    {
        let ghost before = out@;
        let ghost labelled = labelled_marks(src@, *theme, marks@, m as nat);
        let mark = &marks[m];
        let i: usize = mark.first_row;
        let size_pt: Num = src.number_or("size", i, theme.size_pt);
        let text = src.string_at("text", i);
        let shown = match &text {
            Some(s) => s.as_str().unicode_len() > 0,
            None => false,
        };
        if let Some(s) = text {
            if shown && size_pt.is_finite() && size_pt.is_above_zero() {
                assert(has_label(src@, *theme, i as int));
                let p = plan_mark(src, theme, projection, mark, s, size_pt);
                out.push(p);
                let ghost after = labelled_marks(src@, *theme, marks@, (m + 1) as nat);
                assert(after == labelled.push(marks@[m as int]));
                assert forall|k: int| 0 <= k < out@.len() implies is_plan(
                    #[trigger] out@[k],
                    src@,
                    *theme,
                    *projection,
                    after[k],
                ) by {
                    if k < before.len() {
                        assert(out@[k] == before[k]);
                        assert(after[k] == labelled[k]);
                    }
                }
            }
        }
        assert(are_plans(out@, src@, *theme, *projection, marks@, (m + 1) as nat));
        m = m + 1;
    }
    out
}

impl TextPathGeom {
    /// The labels, one for each mark that has one. Everything but the vertices
    /// of a curve comes from the first row of its mark.
    pub fn draw(&self, scales: &ScaleOutputs, theme: &TextPathTheme, projection: &Projection) -> (r:
        Vec<PathLabel>)
        ensures
            ({
                let src = Source {
                    channels: self.state.channels@,
                    values: scales.values@,
                    positions: scales.positions@,
                };
                let placed = src.places_rows("x"@) && src.places_rows("y"@);
                &&& placed ==> exists|marks: Seq<MarkSlot>| #[trigger]
                    are_drawn_marks(marks, self.marks@, self.state.keys) && are_plans(
                        r@,
                        src,
                        *theme,
                        *projection,
                        marks,
                        marks.len(),
                    )
                &&& !placed ==> r@.len() == 0
            }),
    {
        let src = Bound { channels: &self.state.channels, scales };
        if !src.places_rows("x") || !src.places_rows("y") {
            return Vec::new();
        }
        if self.marks.len() == 0 && self.state.len() > 0 {
            let marks = self.build_marks();
            assert(are_drawn_marks(marks@, self.marks@, self.state.keys));
            plan_marks(&src, theme, projection, &marks)
        } else {
            assert(are_drawn_marks(self.marks@, self.marks@, self.state.keys));
            plan_marks(&src, theme, projection, &self.marks)
        }
    }
}

/// The fraction `anchor` of a label's height lies above the curve and the rest
/// below it, as seen in the direction of reading. At nought the label hangs off
/// the curve, at one it stands on it.
pub proof fn anchor_splits_the_body(anchor: Num, env: Env)
    ensures
        ({
            let ascent = (env.var)(Quantity::TextAscent);
            let descent = (env.var)(Quantity::TextDescent);
            let baseline = value(baseline_of(anchor, false), env);
            &&& baseline - ascent == 0real - anchor.value() * (ascent + descent)
            &&& baseline + descent == (1real - anchor.value()) * (ascent + descent)
        }),
{
    let a = anchor.value();
    let ascent = (env.var)(Quantity::TextAscent);
    let descent = (env.var)(Quantity::TextDescent);
    assert(value(Expr::Var(Quantity::TextAscent), env) == ascent);
    assert(value(Expr::Var(Quantity::TextDescent), env) == descent);
    assert(value(e_body(), env) == ascent + descent);
    assert(value(Expr::Lit(anchor), env) == a);
    assert(value(e_mul(Expr::Lit(anchor), e_body()), env) == a * (ascent + descent));
    assert((1real - a) * (ascent + descent) == ascent + descent - a * (ascent + descent))
        by (nonlinear_arith);
}

/// Turning a label round leaves its body where it was: what was its top edge is
/// its bottom edge, as far to the other side of the direction of reading.
pub proof fn turning_round_keeps_the_body(anchor: Num, env: Env)
    ensures
        ({
            let ascent = (env.var)(Quantity::TextAscent);
            let descent = (env.var)(Quantity::TextDescent);
            let straight = value(baseline_of(anchor, false), env);
            let turned = value(baseline_of(anchor, true), env);
            &&& straight - ascent == 0real - (turned + descent)
            &&& straight + descent == 0real - (turned - ascent)
        }),
{
    let ascent = (env.var)(Quantity::TextAscent);
    let descent = (env.var)(Quantity::TextDescent);
    assert(value(Expr::Var(Quantity::TextAscent), env) == ascent);
    assert(value(Expr::Var(Quantity::TextDescent), env) == descent);
    assert(value(e_body(), env) == ascent + descent);
    let down = e_mul(Expr::Lit(anchor), e_body());
    assert(value(e_sub(down, Expr::Var(Quantity::TextDescent)), env) == value(down, env) - descent);
    assert(value(e_sub(Expr::Var(Quantity::TextAscent), down), env) == ascent - value(down, env));
}

/// A label that starts at the start of its curve covers the same part of the
/// curve straight and turned round.
pub proof fn turning_round_keeps_the_stretch(justify: Num, env: Env)
    ensures
        ({
            let length = (env.var)(Quantity::PathLength);
            let width = (env.var)(Quantity::TextWidth);
            let straight = value(shift_of(justify, false), env);
            let turned = value(shift_of(justify, true), env);
            length - (turned + width) == straight
        }),
{
    let j = justify.value();
    let length = (env.var)(Quantity::PathLength);
    let width = (env.var)(Quantity::TextWidth);
    let slack = length - width;
    assert(value(Expr::Var(Quantity::PathLength), env) == length);
    assert(value(Expr::Var(Quantity::TextWidth), env) == width);
    assert(value(e_slack(), env) == slack);
    assert(value(e_int(1), env) == 1real) by {
        assert(1real / 1real == 1real);
    }
    assert(value(Expr::Lit(justify), env) == j);
    assert(value(e_sub(e_int(1), Expr::Lit(justify)), env) == 1real - j);
    assert(value(shift_of(justify, false), env) == j * slack);
    assert(value(shift_of(justify, true), env) == (1real - j) * slack);
    assert((1real - j) * slack == slack - j * slack) by (nonlinear_arith);
}

/// A curve to walk along: for each distance from its start a point, across and
/// down, and the direction there, across and down.
pub type Walked = spec_fn(real) -> (real, real, real, real);

/// A curve of a length, walked from its other end.
pub open spec fn walked_back(c: Walked, length: real) -> Walked {
    |s: real|
        {
            let (x, y, tx, ty) = c(length - s);
            (x, y, 0real - tx, 0real - ty)
        }
}

/// What is known after a curve was walked for a distance.
pub open spec fn on_curve(env: Env, c: Walked, s: real) -> Env {
    let (x, y, tx, ty) = c(s);
    Env {
        var: |q: Quantity|
            match q {
                Quantity::SampleX => x,
                Quantity::SampleY => y,
                Quantity::TangentX => tx,
                Quantity::TangentY => ty,
                _ => (env.var)(q),
            },
        ..env
    }
}

/// Whether one number is what another leaves of one.
pub open spec fn leaves(a: Num, b: Num) -> bool {
    a.finite() && b.finite() && b.value() == 1real - a.value()
}

proof fn turned_shift(justify: Num, mirrored: Num, env: Env)
    requires
        leaves(justify, mirrored),
    ensures
        value(shift_of(justify, true), env) == value(shift_of(mirrored, false), env),
        well_defined(shift_of(justify, true), env),
        well_defined(shift_of(mirrored, false), env),
{
    reveal_with_fuel(well_defined, 4);
    assert(value(e_int(1), env) == 1real) by {
        assert(1real / 1real == 1real);
    }
    assert(value(Expr::Lit(justify), env) == justify.value());
    assert(value(Expr::Lit(mirrored), env) == mirrored.value());
    assert(value(e_sub(e_int(1), Expr::Lit(justify)), env) == 1real - justify.value());
}

proof fn turned_baseline(anchor: Num, mirrored: Num, env: Env)
    requires
        leaves(anchor, mirrored),
    ensures
        value(baseline_of(anchor, true), env) == value(baseline_of(mirrored, false), env),
{
    let ascent = (env.var)(Quantity::TextAscent);
    let descent = (env.var)(Quantity::TextDescent);
    let body = ascent + descent;
    let a = anchor.value();
    assert(value(Expr::Var(Quantity::TextAscent), env) == ascent);
    assert(value(Expr::Var(Quantity::TextDescent), env) == descent);
    assert(value(e_body(), env) == body);
    assert(value(e_mul(Expr::Lit(anchor), e_body()), env) == a * body) by {
        assert(value(Expr::Lit(anchor), env) == a);
    }
    assert(value(e_mul(Expr::Lit(mirrored), e_body()), env) == (1real - a) * body) by {
        assert(value(Expr::Lit(mirrored), env) == 1real - a);
    }
    assert((1real - a) * body == body - a * body) by (nonlinear_arith);
}

/// A label that is turned round is the label that is not, on the curve walked
/// from its other end, with its place along the curve and across it mirrored:
/// each glyph is drawn there or left out alike, on the same spot, turned and
/// moved alike.
pub proof fn turned_label_is_that_of_the_curve_walked_back(
    offset: Num,
    justify: Num,
    anchor: Num,
    angle: Num,
    justify_mirrored: Num,
    anchor_mirrored: Num,
    c: Walked,
    env: Env,
)
    requires
        leaves(justify, justify_mirrored),
        leaves(anchor, anchor_mirrored),
    ensures
        ({
            let length = (env.var)(Quantity::PathLength);
            let g = stamp_of(offset, justify, anchor, angle, true);
            let h = stamp_of(offset, justify_mirrored, anchor_mirrored, angle, false);
            let there = on_curve(env, c, value(g.along, env));
            let here = on_curve(env, walked_back(c, length), value(h.along, env));
            &&& holds(g.when, env) == holds(h.when, env)
            &&& value(g.along, env) == length - value(h.along, env)
            &&& value(g.angle, there) == value(h.angle, here)
            &&& value(g.at.x, there) == value(h.at.x, here)
            &&& value(g.at.y, there) == value(h.at.y, here)
            &&& value(g.shift.x, there) == value(h.shift.x, here)
            &&& value(g.shift.y, there) == value(h.shift.y, here)
        }),
{
    let length = (env.var)(Quantity::PathLength);
    let l = Expr::Var(Quantity::PathLength);
    let g = stamp_of(offset, justify, anchor, angle, true);
    let h = stamp_of(offset, justify_mirrored, anchor_mirrored, angle, false);
    let there = on_curve(env, c, value(g.along, env));
    let here = on_curve(env, walked_back(c, length), value(h.along, env));
    let p = glyph_distance(offset, justify, true);
    let q = glyph_distance(offset, justify_mirrored, false);
    let start = e_px(Expr::Lit(offset));
    turned_shift(justify, justify_mirrored, env);
    assert(value(l, env) == length);
    assert(value(p, env) == value(q, env) && well_defined(p, env) == well_defined(q, env)) by {
        let x = Expr::Var(Quantity::GlyphX);
        let a = e_add(start, shift_of(justify, true));
        let b = e_add(start, shift_of(justify_mirrored, false));
        assert(value(a, env) == value(b, env) && well_defined(a, env) == well_defined(b, env));
        assert(value(e_add(a, x), env) == value(e_add(b, x), env));
        assert(well_defined(e_add(a, x), env) == well_defined(e_add(b, x), env));
    }
    assert(value(e_sub(l, p), env) == length - value(p, env));
    reveal_with_fuel(holds, 3);
    assert(holds(g.when, env) == holds(h.when, env));
    let (x, y, tx, ty) = c(value(g.along, env));
    assert(length - value(h.along, env) == value(g.along, env));
    assert((here.var)(Quantity::SampleX) == x && (here.var)(Quantity::SampleY) == y);
    assert((here.var)(Quantity::TangentX) == 0real - tx);
    assert((here.var)(Quantity::TangentY) == 0real - ty);
    let turned = e_atan2(
        e_tangent(Quantity::TangentY, true),
        e_tangent(Quantity::TangentX, true),
    );
    let straight = e_atan2(
        e_tangent(Quantity::TangentY, false),
        e_tangent(Quantity::TangentX, false),
    );
    assert(value(Expr::Var(Quantity::TangentX), there) == tx);
    assert(value(Expr::Var(Quantity::TangentY), there) == ty);
    assert(value(e_tangent(Quantity::TangentY, true), there) == 0real - ty);
    assert(value(e_tangent(Quantity::TangentX, true), there) == 0real - tx);
    assert(value(e_tangent(Quantity::TangentY, false), here) == 0real - ty);
    assert(value(e_tangent(Quantity::TangentX, false), here) == 0real - tx);
    assert(value(turned, there) == value(straight, here));
    assert(value(e_neg(Expr::Lit(angle)), there) == value(e_neg(Expr::Lit(angle)), here)) by {
        assert(value(Expr::Lit(angle), there) == value(Expr::Lit(angle), here));
    }
    turned_baseline(anchor, anchor_mirrored, there);
    same_baseline(anchor_mirrored, there, here);
    assert(value(Expr::Var(Quantity::GlyphDy), there) == value(Expr::Var(Quantity::GlyphDy), here));
    assert(value(e_half_advance(), there) == value(e_half_advance(), here)) by {
        let v = Expr::Var(Quantity::GlyphAdvance);
        assert(value(v, there) == value(v, here));
        assert(value(e_half(), there) == value(e_half(), here));
    }
}

/// The rules of a label that is turned round are those of the label that is
/// not, on the curve walked from its other end: they are drawn or left out alike,
/// run along the same part of the curve, and lie beside it on the same side.
pub proof fn turned_rules_are_those_of_the_curve_walked_back(
    offset: Num,
    justify: Num,
    anchor: Num,
    justify_mirrored: Num,
    anchor_mirrored: Num,
    c: Walked,
    s: real,
    env: Env,
)
    requires
        leaves(justify, justify_mirrored),
        leaves(anchor, anchor_mirrored),
    ensures
        ({
            let length = (env.var)(Quantity::PathLength);
            let g = rule_of(offset, justify, anchor, true);
            let h = rule_of(offset, justify_mirrored, anchor_mirrored, false);
            let there = on_curve(env, c, s);
            let here = on_curve(env, walked_back(c, length), length - s);
            &&& holds(g.when, env) == holds(h.when, env)
            &&& value(g.from, env) == length - value(h.to, env)
            &&& value(g.to, env) == length - value(h.from, env)
            &&& value(g.thickness, env) == value(h.thickness, env)
            &&& value(g.at.x, there) == value(h.at.x, here)
            &&& value(g.at.y, there) == value(h.at.y, here)
        }),
{
    let length = (env.var)(Quantity::PathLength);
    let l = Expr::Var(Quantity::PathLength);
    let there = on_curve(env, c, s);
    let here = on_curve(env, walked_back(c, length), length - s);
    let start = e_px(Expr::Lit(offset));
    assert(value(l, env) == length);
    turned_shift(justify, justify_mirrored, env);
    let a = e_add(start, shift_of(justify, true));
    let b = e_add(start, shift_of(justify_mirrored, false));
    assert(value(a, env) == value(b, env) && well_defined(a, env) == well_defined(b, env));
    same_rule_end(a, b, Quantity::RuleX0, env);
    same_rule_end(a, b, Quantity::RuleX1, env);
    let lo = rule_end(offset, justify, true, Quantity::RuleX0);
    let hi = rule_end(offset, justify, true, Quantity::RuleX1);
    assert(value(e_sub(l, lo), env) == length - value(lo, env));
    assert(value(e_sub(l, hi), env) == length - value(hi, env));
    reveal_with_fuel(holds, 4);
    let (x, y, tx, ty) = c(s);
    assert(length - (length - s) == s);
    turned_baseline(anchor, anchor_mirrored, there);
    same_baseline(anchor_mirrored, there, here);
    let dy = Expr::Var(Quantity::RuleDy);
    assert(value(dy, there) == value(dy, here));
    let perp = value(e_add(baseline_of(anchor, true), dy), there);
    assert(value(e_add(baseline_of(anchor_mirrored, false), dy), here) == perp);
    let beside = rule_beside(anchor, true);
    let straight = rule_beside(anchor_mirrored, false);
    assert(value(beside, there) == 0real - perp);
    assert(value(straight, here) == perp);
    let vx = Expr::Var(Quantity::TangentX);
    let vy = Expr::Var(Quantity::TangentY);
    assert(value(vx, there) == tx && value(vy, there) == ty);
    assert(value(vx, here) == 0real - tx && value(vy, here) == 0real - ty);
    assert(value(e_neg(vy), there) == 0real - ty && value(e_neg(vy), here) == ty);
    assert(value(e_mul(e_neg(vy), beside), there) == (0real - ty) * (0real - perp));
    assert(value(e_mul(e_neg(vy), straight), here) == ty * perp);
    assert(value(e_mul(vx, beside), there) == tx * (0real - perp));
    assert(value(e_mul(vx, straight), here) == (0real - tx) * perp);
    assert((0real - ty) * (0real - perp) == ty * perp) by (nonlinear_arith);
    assert(tx * (0real - perp) == (0real - tx) * perp) by (nonlinear_arith);
    let sx = Expr::Var(Quantity::SampleX);
    let sy = Expr::Var(Quantity::SampleY);
    assert(value(sx, there) == x && value(sx, here) == x);
    assert(value(sy, there) == y && value(sy, here) == y);
}

proof fn same_rule_end(a: Expr, b: Expr, q: Quantity, env: Env)
    requires
        value(a, env) == value(b, env),
        well_defined(a, env) == well_defined(b, env),
    ensures
        ({
            let p = e_add(a, Expr::Var(q));
            let r = e_add(b, Expr::Var(q));
            let l = Expr::Var(Quantity::PathLength);
            &&& value(p, env) == value(r, env)
            &&& well_defined(p, env) == well_defined(r, env)
            &&& value(e_clamp(p, e_int(0), l), env) == value(e_clamp(r, e_int(0), l), env)
        }),
{
    let p = e_add(a, Expr::Var(q));
    let r = e_add(b, Expr::Var(q));
    assert(value(p, env) == value(r, env));
}

/// What comes of a curve whose vertices are taken from the other end: the same
/// vertices, the last of them first.
pub proof fn vertices_taken_back(placed: Seq<bool>)
    requires
        placed.len() <= usize::MAX,
    ensures
        ({
            let n = placed.len();
            let there = parts_of(true, placed, n);
            let back = parts_of(true, placed.reverse(), n);
            &&& back.len() == there.len()
            &&& forall|k: int|
                #![trigger back[k]]
                0 <= k < back.len() ==> {
                    let v = there[there.len() - 1 - k];
                    &&& v is Vertex && v->Vertex_0 < n
                    &&& back[k] == CurvePart::Vertex((n - 1 - v->Vertex_0) as usize)
                }
        }),
    decreases placed.len(),
{
    let n = placed.len();
    if n > 0 {
        let head = placed.drop_last();
        vertices_taken_back(head);
        let last = placed.last();
        let rest = head.reverse();
        let back = parts_of(true, placed.reverse(), n);
        let inner = parts_of(true, rest, (n - 1) as nat);
        assert(placed.reverse() =~= seq![last] + rest);
        one_vertex_before(last, rest, (n - 1) as nat);
        same_parts(placed, head, (n - 1) as nat);
        let there = parts_of(true, placed, n);
        let tail = parts_of(true, head, (n - 1) as nat);
        assert forall|k: int| #![trigger back[k]] 0 <= k < back.len() implies ({
            let v = there[there.len() - 1 - k];
            &&& v is Vertex && v->Vertex_0 < n
            &&& back[k] == CurvePart::Vertex((n - 1 - v->Vertex_0) as usize)
        }) by {
            if last {
                if k > 0 {
                    assert(there[there.len() - 1 - k] == tail[tail.len() - 1 - (k - 1)]);
                    let w = inner[k - 1];
                    assert(back[(k - 1) + 1] == CurvePart::Vertex((w->Vertex_0 + 1) as usize));
                } else {
                    assert(there.last() == CurvePart::Vertex((n - 1) as usize));
                }
            } else {
                assert(there[there.len() - 1 - k] == tail[tail.len() - 1 - k]);
                let w = inner[k];
                assert(back[k + 0] == CurvePart::Vertex((w->Vertex_0 + 1) as usize));
            }
        }
    }
}

proof fn same_parts(a: Seq<bool>, b: Seq<bool>, n: nat)
    requires
        n <= a.len(),
        n <= b.len(),
        forall|i: int| 0 <= i < n ==> a[i] == b[i],
    ensures
        parts_of(true, a, n) == parts_of(true, b, n),
    decreases n,
{
    if n > 0 {
        same_parts(a, b, (n - 1) as nat);
    }
}

proof fn one_vertex_before(first: bool, rest: Seq<bool>, n: nat)
    requires
        n <= rest.len() < usize::MAX,
    ensures
        ({
            let all = parts_of(true, seq![first] + rest, n + 1);
            let inner = parts_of(true, rest, n);
            let lead = if first {
                1int
            } else {
                0int
            };
            &&& all.len() == inner.len() + lead
            &&& first ==> all[0] == CurvePart::Vertex(0)
            &&& forall|k: int|
                #![trigger inner[k]]
                0 <= k < inner.len() ==> inner[k] is Vertex && inner[k]->Vertex_0 < n && all[k
                    + lead] == CurvePart::Vertex((inner[k]->Vertex_0 + 1) as usize)
        }),
    decreases n,
{
    let whole = seq![first] + rest;
    if n > 0 {
        one_vertex_before(first, rest, (n - 1) as nat);
        assert(whole[n as int] == rest[n - 1]);
    } else {
        assert(whole[0] == first);
        assert(parts_of(true, whole, 0).len() == 0);
    }
}

proof fn same_baseline(anchor: Num, a: Env, b: Env)
    requires
        (a.var)(Quantity::TextAscent) == (b.var)(Quantity::TextAscent),
        (a.var)(Quantity::TextDescent) == (b.var)(Quantity::TextDescent),
    ensures
        value(baseline_of(anchor, false), a) == value(baseline_of(anchor, false), b),
{
    let up = Expr::Var(Quantity::TextAscent);
    let down = Expr::Var(Quantity::TextDescent);
    assert(value(up, a) == value(up, b) && value(down, a) == value(down, b));
    assert(value(e_body(), a) == value(e_body(), b));
    let part = e_mul(Expr::Lit(anchor), e_body());
    assert(value(Expr::Lit(anchor), a) == value(Expr::Lit(anchor), b));
    assert(value(part, a) == value(part, b));
}

/// A glyph that is drawn lies on its curve: no glyph is put down before its
/// start or past its end.
pub proof fn stamps_lie_on_the_curve(
    offset: Num,
    justify: Num,
    anchor: Num,
    angle: Num,
    flipped: bool,
    env: Env,
)
    requires
        holds(stamp_of(offset, justify, anchor, angle, flipped).when, env),
    ensures
        0real <= value(stamp_of(offset, justify, anchor, angle, flipped).along, env) <= (env.var)(
            Quantity::PathLength,
        ),
{
    let d = glyph_distance(offset, justify, flipped);
    let length = Expr::Var(Quantity::PathLength);
    reveal_with_fuel(holds, 3);
    assert(value(length, env) == (env.var)(Quantity::PathLength));
    assert(value(e_int(0), env) == 0real) by {
        assert(0real / 1real == 0real);
    }
    assert(holds(c_ge(d, e_int(0)), env) && holds(c_ge(length, d), env));
    assert(value(e_sub(length, d), env) == value(length, env) - value(d, env));
}

/// A rule that is drawn lies on its curve, and runs along it.
pub proof fn rules_lie_on_the_curve(offset: Num, justify: Num, anchor: Num, flipped: bool, env: Env)
    requires
        (env.var)(Quantity::PathLength) >= 0real,
        holds(rule_of(offset, justify, anchor, flipped).when, env),
    ensures
        ({
            let r = rule_of(offset, justify, anchor, flipped);
            0real <= value(r.from, env) < value(r.to, env) <= (env.var)(Quantity::PathLength)
        }),
{
    let lo = rule_end(offset, justify, flipped, Quantity::RuleX0);
    let hi = rule_end(offset, justify, flipped, Quantity::RuleX1);
    let length = Expr::Var(Quantity::PathLength);
    reveal_with_fuel(holds, 4);
    assert(value(length, env) == (env.var)(Quantity::PathLength));
    assert(value(e_int(0), env) == 0real) by {
        assert(0real / 1real == 0real);
    }
    assert(holds(c_gt(hi, lo), env));
    assert(value(e_sub(length, hi), env) == value(length, env) - value(hi, env));
    assert(value(e_sub(length, lo), env) == value(length, env) - value(lo, env));
}

} // verus!
