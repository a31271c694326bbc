//! Labels, one for each row, as large as a rectangle allows.
//!
//! The rectangle is given by `x` and `y` and the corner across from it, `x2` and
//! `y2`. The font size is the largest between `min_font_size` and
//! `max_font_size` at which the text, broken into lines as wide as the rectangle,
//! fits into it. A text that does not fit at the smallest size is drawn at that
//! size and clipped to the rectangle.

use std::sync::Arc;
use vstd::prelude::*;

use crate::channel::{CatalogEntry, Channel, ChannelDecl, ExpectedOutput, Keys};
use crate::expr::{
    c_and, c_finite, c_ge, c_panel_open, c_positive, e_add, e_half, e_int, e_max, e_min, e_mul,
    e_px, e_sub, holds, value, Cond, Env, Expr, Quantity,
};
use crate::geom::builder::GeomBuilder;
use crate::geom::error::{BuildError, BuildFault};
use crate::geom::label::{
    backdrop_steps, c_rect_open, draw_backdrop, fitted_bottom_padding, fitted_paddings, rect_is_open,
    rich_key, top_padding, Backdrop, Label,
};
use crate::geom::place::{
    end_names, fractions_at, fractions_of, moved, offset_point, start_names,
};
use crate::geom::rich::{
    folded, resolves, shapes, OutlineSheets, RichShapeCache, RichWidth, StyleSheet,
};
use crate::geom::state::{
    build_fault, buildable, declares, finalize_state, freshly_built, has_x_and, keys_built,
    require_data_column, require_x_and_siblings, x_and_fault, GeomState, KeysStrategy,
};
use crate::names::same_name;
use crate::num::Num;
use crate::projection::{Fractions, Projection};
use crate::resolve::{align_named, italic_in, pick_for, Bound, ScaleOutputs, Source};
use crate::scene::{
    turn, turned, Op, Paint, Path, Point, Rect, Spacing, Step, TextStyle, Xform,
};
use crate::theme::{black, default_fill, TextFitTheme};
use crate::value::{Color, DataColumn};

verus! {

/// The channels that the geom reads.
pub open spec fn catalog() -> Seq<CatalogEntry> {
    seq![
        ("x", ExpectedOutput::Numbers),
        ("y", ExpectedOutput::Numbers),
        ("x2", ExpectedOutput::Numbers),
        ("y2", ExpectedOutput::Numbers),
        ("x_offset", ExpectedOutput::Numbers),
        ("y_offset", ExpectedOutput::Numbers),
        ("x2_offset", ExpectedOutput::Numbers),
        ("y2_offset", ExpectedOutput::Numbers),
        ("x_band", ExpectedOutput::Numbers),
        ("y_band", ExpectedOutput::Numbers),
        ("x2_band", ExpectedOutput::Numbers),
        ("y2_band", ExpectedOutput::Numbers),
        ("text", ExpectedOutput::Strings),
        ("family", ExpectedOutput::Strings),
        ("weight", ExpectedOutput::Numbers),
        ("italic", ExpectedOutput::Any),
        ("tracking", ExpectedOutput::Numbers),
        ("markdown", ExpectedOutput::Any),
        ("underline", ExpectedOutput::Any),
        ("strikethrough", ExpectedOutput::Any),
        ("text_stroke", ExpectedOutput::Colors),
        ("text_linewidth", ExpectedOutput::Numbers),
        ("min_font_size", ExpectedOutput::Numbers),
        ("max_font_size", ExpectedOutput::Numbers),
        ("fill", ExpectedOutput::Colors),
        ("fill_opacity", ExpectedOutput::Numbers),
        ("bg_fill", ExpectedOutput::Colors),
        ("bg_fill_opacity", ExpectedOutput::Numbers),
        ("bg_stroke", ExpectedOutput::Colors),
        ("bg_stroke_opacity", ExpectedOutput::Numbers),
        ("bg_linewidth", ExpectedOutput::Numbers),
        ("bg_corner_radius", ExpectedOutput::Numbers),
        ("bg_padding", ExpectedOutput::Numbers),
        ("justify_x", ExpectedOutput::Strings),
        ("justify_y", ExpectedOutput::Strings),
        ("angle", ExpectedOutput::Numbers),
        ("pick_id", ExpectedOutput::Numbers),
    ]
}

fn catalog_entries() -> (r: Vec<CatalogEntry>)
    ensures
        r@ == catalog(),
{
    let r: Vec<CatalogEntry> = vec![
        ("x", ExpectedOutput::Numbers),
        ("y", ExpectedOutput::Numbers),
        ("x2", ExpectedOutput::Numbers),
        ("y2", ExpectedOutput::Numbers),
        ("x_offset", ExpectedOutput::Numbers),
        ("y_offset", ExpectedOutput::Numbers),
        ("x2_offset", ExpectedOutput::Numbers),
        ("y2_offset", ExpectedOutput::Numbers),
        ("x_band", ExpectedOutput::Numbers),
        ("y_band", ExpectedOutput::Numbers),
        ("x2_band", ExpectedOutput::Numbers),
        ("y2_band", ExpectedOutput::Numbers),
        ("text", ExpectedOutput::Strings),
        ("family", ExpectedOutput::Strings),
        ("weight", ExpectedOutput::Numbers),
        ("italic", ExpectedOutput::Any),
        ("tracking", ExpectedOutput::Numbers),
        ("markdown", ExpectedOutput::Any),
        ("underline", ExpectedOutput::Any),
        ("strikethrough", ExpectedOutput::Any),
        ("text_stroke", ExpectedOutput::Colors),
        ("text_linewidth", ExpectedOutput::Numbers),
        ("min_font_size", ExpectedOutput::Numbers),
        ("max_font_size", ExpectedOutput::Numbers),
        ("fill", ExpectedOutput::Colors),
        ("fill_opacity", ExpectedOutput::Numbers),
        ("bg_fill", ExpectedOutput::Colors),
        ("bg_fill_opacity", ExpectedOutput::Numbers),
        ("bg_stroke", ExpectedOutput::Colors),
        ("bg_stroke_opacity", ExpectedOutput::Numbers),
        ("bg_linewidth", ExpectedOutput::Numbers),
        ("bg_corner_radius", ExpectedOutput::Numbers),
        ("bg_padding", ExpectedOutput::Numbers),
        ("justify_x", ExpectedOutput::Strings),
        ("justify_y", ExpectedOutput::Strings),
        ("angle", ExpectedOutput::Numbers),
        ("pick_id", ExpectedOutput::Numbers),
    ];
    assert(r@ =~= catalog());
    r
}

/// The columns that have to be as long as `x`.
pub open spec fn required() -> Seq<&'static str> {
    seq!["y", "x2", "y2"]
}

/// How many rows the channels have.
pub open spec fn rows_of(channels: Map<Seq<char>, Channel>) -> nat {
    channels["x"@].column()->0.count()
}

/// Whether the text varies by row.
pub open spec fn has_text(channels: Map<Seq<char>, Channel>) -> bool {
    channels.contains_key("text"@) && channels["text"@].column() is Some
}

/// Whether a geom of `n` rows can be built from these channels.
pub open spec fn can_build(
    keys: Option<DataColumn>,
    channels: Map<Seq<char>, Channel>,
    n: nat,
) -> bool {
    &&& has_x_and(channels, required(), n)
    &&& has_text(channels)
    &&& buildable(keys, channels, n, catalog())
}

/// Whether no geom can be built, and `e` says why.
pub open spec fn rejected(
    keys: Option<DataColumn>,
    channels: Map<Seq<char>, Channel>,
    e: BuildFault,
) -> bool {
    let n = rows_of(channels);
    &&& !can_build(keys, channels, n)
    &&& if !has_x_and(channels, required(), n) {
        x_and_fault(channels, required(), "TextFitGeom"@, e)
    } else if !channels.contains_key("text"@) {
        e == (BuildFault::MissingChannel { label: "TextFitGeom"@, name: "text"@ })
    } else if !has_text(channels) {
        e == (BuildFault::NotData { label: "TextFitGeom"@, name: "text"@ })
    } else {
        build_fault(keys, channels, n, catalog(), "TextFitGeom"@, e)
    }
}

/// Labels fitted into rectangles, one for each row.
pub struct TextFitGeom {
    /// The keys, channels and frame history.
    pub state: GeomState,
    /// The style sheet for markdown; the theme's where there is none.
    pub rich_sheet: Option<Arc<StyleSheet>>,
    /// The markdown that is shaped already, at every size that was tried.
    pub rich_cache: RichShapeCache,
    /// The style sheets that outlines were folded onto.
    pub rich_outline_sheets: OutlineSheets,
}

impl TextFitGeom {
    /// Builds the geom.
    pub fn build_from(builder: GeomBuilder) -> (r: Result<TextFitGeom, BuildError>)
        ensures
            match r {
                Ok(g) => {
                    &&& can_build(builder.keys, builder.channels@, g.state.keys.count())
                    &&& freshly_built(
                        g.state,
                        builder.keys,
                        builder.channels@,
                        g.state.keys.count(),
                        KeysStrategy::PerRow,
                        g.state.declared@,
                    )
                    &&& declares(g.state.declared@, builder.channels@, catalog())
                    &&& g.state.wf()
                    &&& g.rich_sheet is None
                    &&& g.rich_cache.keys@.len() == 0
                    &&& g.rich_outline_sheets.keys@.len() == 0
                    &&& g.rich_outline_sheets.wf()
                },
                Err(e) => rejected(builder.keys, builder.channels@, e@),
            },
    {
        let (keys_opt, channels) = builder.into_parts();
        let siblings = ["y", "x2", "y2"];
        assert(siblings@ =~= required());
        let n: usize = match require_x_and_siblings(&channels, &siblings, "TextFitGeom") {
            Ok(n) => n,
            Err(e) => return Err(e),
        };
        match require_data_column("text", &channels, "TextFitGeom") {
            Ok(_) => {},
            Err(e) => return Err(e),
        }
        let entries = catalog_entries();
        match finalize_state(
            keys_opt,
            channels,
            n,
            KeysStrategy::PerRow,
            entries.as_slice(),
            "TextFitGeom",
        ) {
            Ok(state) => Ok(
                TextFitGeom {
                    state,
                    rich_sheet: None,
                    rich_cache: RichShapeCache::new(),
                    rich_outline_sheets: OutlineSheets::new(),
                },
            ),
            Err(e) => Err(e),
        }
    }

    /// Makes a style sheet that of every row in markdown, in place of the
    /// theme's.
    pub fn with_rich_sheet(self, sheet: Arc<StyleSheet>) -> (r: TextFitGeom)
        ensures
            r.rich_sheet == Some(sheet),
            r.state == self.state,
            r.rich_cache == self.rich_cache,
            r.rich_outline_sheets == self.rich_outline_sheets,
    {
        TextFitGeom {
            state: self.state,
            rich_sheet: Some(sheet),
            rich_cache: self.rich_cache,
            rich_outline_sheets: self.rich_outline_sheets,
        }
    }

    /// Makes a style sheet that of every row in markdown, in place of the
    /// theme's.
    pub fn set_rich_sheet(&mut self, sheet: Arc<StyleSheet>)
        ensures
            final(self).rich_sheet == Some(sheet),
            final(self).state == old(self).state,
            final(self).rich_cache == old(self).rich_cache,
            final(self).rich_outline_sheets == old(self).rich_outline_sheets,
    {
        self.rich_sheet = Some(sheet);
    }

    /// Goes back to the theme's style sheet.
    pub fn clear_rich_sheet(&mut self)
        ensures
            final(self).rich_sheet is None,
            final(self).state == old(self).state,
            final(self).rich_cache == old(self).rich_cache,
            final(self).rich_outline_sheets == old(self).rich_outline_sheets,
    {
        self.rich_sheet = None;
    }

    /// Forgets what was shaped, and the style sheets that were made for it. What
    /// was shaped is found by its style sheet, so another sheet does not need
    /// this.
    pub fn clear_rich_cache(&mut self)
        ensures
            final(self).rich_cache.keys@.len() == 0,
            final(self).rich_outline_sheets.keys@.len() == 0,
            final(self).rich_outline_sheets.wf(),
            final(self).state == old(self).state,
            final(self).rich_sheet == old(self).rich_sheet,
    {
        self.rich_cache.clear();
        self.rich_outline_sheets.clear();
    }

    /// The style sheet of rows in markdown.
    pub fn sheet_or<'a>(&'a self, theme: &'a Arc<StyleSheet>) -> (r: &'a Arc<StyleSheet>)
        ensures
            *r == match self.rich_sheet {
                Some(s) => s,
                None => *theme,
            },
    {
        match &self.rich_sheet {
            Some(s) => s,
            None => theme,
        }
    }

    /// Finds the shape of a row in markdown at a font size: hands out its style
    /// sheet, with the row's outline folded onto it, the place of its shape, and
    /// whether it has still to be shaped.
    pub fn shape_row(
        &mut self,
        theme: &Arc<StyleSheet>,
        label: &Label,
        size_pt: Num,
        palette: u64,
        images: u64,
        dpi: Num,
        width: RichWidth,
    ) -> (r: (Arc<StyleSheet>, usize, bool))
        requires
            old(self).rich_outline_sheets.wf(),
        ensures
            ({
                let base = match old(self).rich_sheet {
                    Some(s) => s,
                    None => *theme,
                };
                let key = rich_key(*label, size_pt, base.id, palette, Some(images), dpi, width);
                &&& resolves(
                    old(self).rich_outline_sheets,
                    final(self).rich_outline_sheets,
                    base,
                    label.outline,
                    r.0,
                )
                &&& shapes(old(self).rich_cache, final(self).rich_cache, key, r.1, r.2)
                &&& label.outline matches Some((color, w)) ==> old(
                    self,
                ).rich_outline_sheets.tells_apart(*base) ==> folded(*r.0, *base, color, w)
            }),
            final(self).rich_outline_sheets.wf(),
            final(self).state == old(self).state,
            final(self).rich_sheet == old(self).rich_sheet,
    {
        let base = self.sheet_or(theme).clone();
        let sheet = match label.outline {
            Some((color, w)) => self.rich_outline_sheets.resolve(&base, Some(color), w),
            None => self.rich_outline_sheets.resolve(&base, None, Num { bits: 0 }),
        };
        let key = label.rich_key(size_pt, base.id, palette, Some(images), dpi, width);
        let (slot, fresh) = self.rich_cache.get_or_shape(key);
        (sheet, slot, fresh)
    }

    /// The geom's kind.
    pub fn kind(&self) -> (r: Option<&'static str>)
        ensures
            r is Some,
            r->0@ == "text-fit"@,
    {
        Some("text-fit")
    }

    /// Forgets what was shaped, and the style sheets that were made for it.
    pub fn invalidate_caches(&mut self)
        ensures
            final(self).rich_cache.keys@.len() == 0,
            final(self).rich_outline_sheets.keys@.len() == 0,
            final(self).rich_outline_sheets.wf(),
            final(self).state == old(self).state,
            final(self).rich_sheet == old(self).rich_sheet,
    {
        self.rich_cache.clear();
        self.rich_outline_sheets.clear();
    }
}

impl TextFitGeom {
    /// Nothing to build from yet.
    pub fn builder() -> (r: GeomBuilder)
        ensures
            r.keys is None,
            r.channels@ == Map::<Seq<char>, Channel>::empty(),
    {
        GeomBuilder::new()
    }

    /// How many rows there are.
    pub fn len(&self) -> (r: usize)
        ensures
            r == self.state.keys.count(),
    {
        self.state.len()
    }

    /// Whether there is no row.
    pub fn is_empty(&self) -> (r: bool)
        ensures
            r == (self.state.keys.count() == 0),
    {
        self.state.is_empty()
    }

    /// Whether a key column was supplied.
    pub fn has_explicit_keys(&self) -> (r: bool)
        ensures
            r == (self.state.keys is Explicit),
    {
        self.state.keys.is_explicit()
    }

    /// The channels that the geom declares, by name.
    pub fn declared_channels(&self) -> (r: &Vec<ChannelDecl>)
        ensures
            *r == self.state.declared,
    {
        &self.state.declared
    }

    /// Replaces one channel. See [`GeomState::set`].
    pub fn set(&mut self, name: &str, value: Channel) -> (r: Result<(), BuildError>)
        ensures
            match r {
                Ok(_) => {
                    &&& value.column() is Some ==> value.column()->0.count()
                        == old(self).state.keys.count()
                    &&& final(self).state.channels@ == old(self).state.channels@.insert(name@, value)
                    &&& final(self).state.dirty
                    &&& final(self).state.same_but_channels(old(self).state)
                },
                Err(e) => {
                    &&& value.column() is Some
                    &&& value.column()->0.count() != old(self).state.keys.count()
                    &&& e@ == (BuildFault::SetLength {
                        name: name@,
                        len: value.column()->0.count(),
                        rows: old(self).state.keys.count(),
                    })
                    &&& final(self).state == old(self).state
                },
            },
            old(self).state.wf() ==> final(self).state.wf(),
            final(self).rich_sheet == old(self).rich_sheet,
            final(self).rich_cache == old(self).rich_cache,
            final(self).rich_outline_sheets == old(self).rich_outline_sheets,
    {
        self.state.set(name.to_owned(), value)
    }

    /// What the geom would be built from again: the start of an update.
    pub fn edit(&self) -> (r: GeomBuilder)
        ensures
            r.channels@ == self.state.channels@,
            match self.state.keys {
                Keys::Explicit(c) => r.keys == Some(c),
                Keys::Positional(_) => r.keys is None,
            },
    {
        GeomBuilder::from_state(&self.state)
    }

    /// Replaces the whole frame by what `builder` makes of it, and makes the
    /// current frame the one before. A frame that cannot be built changes
    /// nothing.
    pub fn update(&mut self, builder: GeomBuilder) -> (r: Result<(), BuildError>)
        ensures
            match r {
                Ok(_) => {
                    &&& can_build(builder.keys, builder.channels@, final(self).state.keys.count())
                    &&& final(self).state.prev_keys == old(self).state.keys
                    &&& final(self).state.prev_channels == old(self).state.channels
                    &&& final(self).state.channels@ == builder.channels@
                    &&& keys_built(
                        final(self).state.keys,
                        builder.keys,
                        final(self).state.keys.count(),
                        KeysStrategy::PerRow,
                    )
                    &&& declares(final(self).state.declared@, builder.channels@, catalog())
                    &&& final(self).state.dirty
                    &&& final(self).state.wf()
                    &&& final(self).rich_sheet == old(self).rich_sheet
                    &&& final(self).rich_cache.keys@.len() == 0
                    &&& final(self).rich_outline_sheets.keys@.len() == 0
                    &&& final(self).rich_outline_sheets.wf()
                },
                Err(e) => rejected(builder.keys, builder.channels@, e@) && *final(self) == *old(
                    self,
                ),
            },
    {
        match Self::build_from(builder) {
            Ok(new) => {
                self.state.replace_current_with(new.state);
                self.invalidate_caches();
                Ok(())
            },
            Err(e) => Err(e),
        }
    }
}

/// How often the search halves the range of sizes. Between 6 and 96 points the
/// size it finds is within 5.6 points of the largest that fits.
pub const MAX_ITERS: usize = 4;

/// What the search wants next. Sizes are patterns of single-precision numbers.
#[derive(Clone, Copy, Debug, PartialEq, Eq, Structural)]
pub enum FitProbe {
    /// The label at this size.
    At(u32),
    /// The label at the size half-way between these two.
    Between(u32, u32),
    /// Nothing: this is the size to draw at.
    Draw {
        /// The size.
        size: u32,
        /// Whether the label fits. If not, it is clipped.
        fits: bool,
    },
}

/// A search for the largest font size at which a label fits. The largest size
/// is tried first, and the smallest last where no other fits: halving reaches
/// neither.
#[derive(Clone, Copy, Debug, PartialEq, Eq, Structural)]
pub struct FitSearch {
    /// The smallest size allowed.
    pub min: u32,
    /// The largest size allowed.
    pub max: u32,
    /// The label fits at this size, or this is the smallest size.
    pub lo: u32,
    /// The label does not fit at this size, or this was not tried yet.
    pub hi: u32,
    /// Whether the label fits at some size that was tried, the best of which
    /// is `lo`.
    pub fits: bool,
    /// Whether the largest size was tried.
    pub tried_max: bool,
    /// Whether the smallest size was tried.
    pub tried_min: bool,
    /// How often the range is still to be halved.
    pub left: usize,
}

impl FitSearch {
    /// The search between two sizes, before anything was tried.
    pub open spec fn started(min: u32, max: u32) -> FitSearch {
        FitSearch {
            min,
            max,
            lo: min,
            hi: max,
            fits: false,
            tried_max: false,
            tried_min: false,
            left: MAX_ITERS,
        }
    }

    /// What the search wants next.
    pub open spec fn wants(self) -> FitProbe {
        if !self.tried_max {
            FitProbe::At(self.max)
        } else if self.left > 0 {
            FitProbe::Between(self.lo, self.hi)
        } else if !self.fits && !self.tried_min {
            FitProbe::At(self.min)
        } else {
            FitProbe::Draw { size: self.lo, fits: self.fits }
        }
    }

    /// The search after the label was tried at a size.
    pub open spec fn after(self, size: u32, fits: bool) -> FitSearch {
        if !self.tried_max {
            if fits {
                FitSearch { lo: size, fits: true, tried_max: true, left: 0, ..self }
            } else {
                FitSearch { tried_max: true, ..self }
            }
        } else if self.left > 0 {
            let left = (self.left - 1) as usize;
            if fits {
                FitSearch { lo: size, fits: true, left, ..self }
            } else {
                FitSearch { hi: size, left, ..self }
            }
        } else if !self.fits && !self.tried_min {
            FitSearch { fits, tried_min: true, ..self }
        } else {
            self
        }
    }

    /// How often the label is still to be tried, at most.
    pub open spec fn probes_left(self) -> nat {
        let largest: nat = if self.tried_max {
            0
        } else {
            1
        };
        let smallest: nat = if self.fits || self.tried_min {
            0
        } else {
            1
        };
        largest + self.left as nat + smallest
    }

    /// Starts a search between two sizes.
    pub fn start(min: u32, max: u32) -> (r: FitSearch)
        ensures
            r == FitSearch::started(min, max),
            r.probes_left() == MAX_ITERS + 2,
    {
        FitSearch {
            min,
            max,
            lo: min,
            hi: max,
            fits: false,
            tried_max: false,
            tried_min: false,
            left: MAX_ITERS,
        }
    }

    /// What the search wants next.
    pub fn next(&self) -> (r: FitProbe)
        ensures
            r == self.wants(),
            r is Draw == (self.probes_left() == 0),
    {
        if !self.tried_max {
            FitProbe::At(self.max)
        } else if self.left > 0 {
            FitProbe::Between(self.lo, self.hi)
        } else if !self.fits && !self.tried_min {
            FitProbe::At(self.min)
        } else {
            FitProbe::Draw { size: self.lo, fits: self.fits }
        }
    }

    /// Goes on with how the label came out at a size.
    pub fn observe(self, size: u32, fits: bool) -> (r: FitSearch)
        ensures
            r == self.after(size, fits),
            self.probes_left() > 0 ==> r.probes_left() < self.probes_left(),
    {
        if !self.tried_max {
            if fits {
                FitSearch { lo: size, fits: true, tried_max: true, left: 0, ..self }
            } else {
                FitSearch { tried_max: true, ..self }
            }
        } else if self.left > 0 {
            let left: usize = self.left - 1;
            if fits {
                FitSearch { lo: size, fits: true, left, ..self }
            } else {
                FitSearch { hi: size, left, ..self }
            }
        } else if !self.fits && !self.tried_min {
            FitSearch { fits, tried_min: true, ..self }
        } else {
            self
        }
    }
}

/// The search after the label was tried at each of these sizes in turn.
pub open spec fn searched(min: u32, max: u32, tries: Seq<(u32, bool)>) -> FitSearch
    decreases tries.len(),
{
    if tries.len() == 0 {
        FitSearch::started(min, max)
    } else {
        searched(min, max, tries.drop_last()).after(tries.last().0, tries.last().1)
    }
}

/// Whether each size in `tries` is what the search wants at that time, where
/// it names one.
pub open spec fn asked_for(min: u32, max: u32, tries: Seq<(u32, bool)>) -> bool
    decreases tries.len(),
{
    if tries.len() == 0 {
        true
    } else {
        &&& asked_for(min, max, tries.drop_last())
        &&& match searched(min, max, tries.drop_last()).wants() {
            FitProbe::At(n) => tries.last().0 == n,
            FitProbe::Between(_, _) => true,
            FitProbe::Draw { .. } => false,
        }
    }
}

proof fn best_was_tried(min: u32, max: u32, tries: Seq<(u32, bool)>)
    requires
        asked_for(min, max, tries),
    ensures
        ({
            let s = searched(min, max, tries);
            &&& s.min == min && s.max == max
            &&& s.fits ==> tries.contains((s.lo, true))
            &&& !s.fits ==> s.lo == min
            &&& !s.fits && s.tried_min ==> tries.contains((min, false))
        }),
    decreases tries.len(),
{
    if tries.len() > 0 {
        let t = tries.drop_last();
        best_was_tried(min, max, t);
        let s = searched(min, max, tries);
        let p = searched(min, max, t);
        assert(tries[tries.len() - 1] == tries.last());
        if s.fits && s.lo == p.lo && p.fits {
            let k = choose|k: int| 0 <= k < t.len() && t[k] == (p.lo, true);
            assert(tries[k] == (s.lo, true));
        }
        if p.tried_min && !p.fits {
            let k = choose|k: int| 0 <= k < t.len() && t[k] == (min, false);
            assert(tries[k] == (min, false));
        }
    }
}

/// A label is drawn at a size that was tried, and is clipped only where it does
/// not fit at the smallest size, which it is then drawn at.
pub proof fn drawn_size_was_tried(min: u32, max: u32, tries: Seq<(u32, bool)>)
    requires
        asked_for(min, max, tries),
        searched(min, max, tries).wants() is Draw,
    ensures
        ({
            let drawn = searched(min, max, tries).wants();
            &&& tries.contains((drawn->size, drawn->fits))
            &&& !drawn->fits ==> drawn->size == min
        }),
{
    best_was_tried(min, max, tries);
}

/// Whether each size in `tries` is what the search wants at that time, halving
/// exactly, and the label fits at every size up to `limit` and at no other.
pub open spec fn fair_tries(
    min: u32,
    max: u32,
    tries: Seq<(u32, bool)>,
    size: spec_fn(u32) -> real,
    limit: real,
) -> bool
    decreases tries.len(),
{
    if tries.len() == 0 {
        true
    } else {
        let s = searched(min, max, tries.drop_last());
        let t = tries.last();
        &&& fair_tries(min, max, tries.drop_last(), size, limit)
        &&& t.1 == (size(t.0) <= limit)
        &&& match s.wants() {
            FitProbe::At(n) => t.0 == n,
            FitProbe::Between(lo, hi) => size(t.0) == (size(lo) + size(hi)) / 2real,
            FitProbe::Draw { .. } => false,
        }
    }
}

/// `x` halved `n` times.
pub open spec fn halved(x: real, n: nat) -> real
    decreases n,
{
    if n == 0 {
        x
    } else {
        halved(x, (n - 1) as nat) / 2real
    }
}

proof fn range_halves(
    min: u32,
    max: u32,
    tries: Seq<(u32, bool)>,
    size: spec_fn(u32) -> real,
    limit: real,
)
    requires
        fair_tries(min, max, tries, size, limit),
        size(min) <= limit < size(max),
    ensures
        ({
            let s = searched(min, max, tries);
            &&& s.max == max && s.min == min
            &&& tries.len() > 0 ==> s.tried_max
            &&& tries.len() == 0 ==> !s.tried_max && s.left == MAX_ITERS
            &&& s.left <= MAX_ITERS
            &&& size(s.lo) <= limit < size(s.hi)
            &&& size(s.hi) - size(s.lo) == halved(
                size(max) - size(min),
                (MAX_ITERS - s.left) as nat,
            )
        }),
    decreases tries.len(),
{
    if tries.len() > 0 {
        range_halves(min, max, tries.drop_last(), size, limit);
        let p = searched(min, max, tries.drop_last());
        let t = tries.last();
        if p.tried_max {
            let a = size(p.lo);
            let b = size(p.hi);
            assert((a + b) / 2real - a == (b - a) / 2real);
            assert(b - (a + b) / 2real == (b - a) / 2real);
        }
    }
}

/// Where every size up to a limit fits and no larger one does, the search finds
/// a size that fits, within a sixteenth of the range of the limit.
pub proof fn search_closes_in(
    min: u32,
    max: u32,
    tries: Seq<(u32, bool)>,
    size: spec_fn(u32) -> real,
    limit: real,
)
    requires
        fair_tries(min, max, tries, size, limit),
        size(min) <= limit < size(max),
        searched(min, max, tries).wants() is Draw,
    ensures
        ({
            let drawn = searched(min, max, tries).wants()->size;
            &&& size(drawn) <= limit
            &&& limit - size(drawn) < (size(max) - size(min)) / 16real
        }),
{
    range_halves(min, max, tries, size, limit);
    let d = size(max) - size(min);
    assert(halved(d, 4) == d / 16real) by {
        reveal_with_fuel(halved, 5);
        assert(d / 2real / 2real / 2real / 2real == d / 16real);
    }
}

/// Where the largest size fits, it is drawn at, and nothing else is tried.
pub proof fn largest_size_is_reached(min: u32, max: u32)
    ensures
        FitSearch::started(min, max).wants() == FitProbe::At(max),
        FitSearch::started(min, max).after(max, true).wants() == (FitProbe::Draw {
            size: max,
            fits: true,
        }),
{
}

/// A label to be fitted, and what is drawn for it.
#[derive(Debug)]
pub struct FitPlan {
    /// The label. Its size is found by the search.
    pub label: Label,
    /// When it is drawn at all.
    pub when: Cond,
    /// The smallest font size, in points.
    pub min_pt: Expr,
    /// The largest font size, in points.
    pub max_pt: Expr,
    /// Whether the label fits as it was measured.
    pub fits: Cond,
    /// What is drawn where it fits.
    pub fitted: Vec<Step>,
    /// What is drawn where it fits at no size.
    pub clipped: Vec<Step>,
}

impl FitPlan {
    /// What is drawn for the label, as it fits or not.
    pub fn steps(&self, fits: bool) -> (r: &Vec<Step>)
        ensures
            *r == (if fits {
                self.fitted
            } else {
                self.clipped
            }),
    {
        if fits {
            &self.fitted
        } else {
            &self.clipped
        }
    }
}

/// The text of row `i`; none where there is nothing to draw.
pub open spec fn text_of(src: Source, i: int) -> Option<String> {
    match src.string_at("text"@, i) {
        Some(s) => if s@.len() == 0 {
            None
        } else {
            Some(s)
        },
        None => None,
    }
}

/// The font weight of row `i`.
pub open spec fn weight_of(src: Source, i: int, default: u16) -> u16 {
    match src.number_at("weight"@, i) {
        Some(n) => choose|w: u16| n.is_nearest_between(1, 1000, w),
        None => default,
    }
}

/// How row `i` is set, at no size yet.
pub open spec fn style_of(src: Source, theme: TextFitTheme, i: int) -> TextStyle {
    TextStyle {
        size_pt: Num { bits: 0 },
        weight: weight_of(src, i, theme.weight),
        italic: italic_in(src.value_at("italic"@, i)),
        spacing: Spacing::Tracking(src.number_or("tracking"@, i, theme.tracking)),
        underline: src.bool_or("underline"@, i, theme.underline),
        strikethrough: src.bool_or("strikethrough"@, i, theme.strikethrough),
        family: src.string_at("family"@, i),
    }
}

/// What the glyphs of row `i` are filled with.
pub open spec fn fill_of(src: Source, theme: TextFitTheme, i: int) -> Paint {
    match src.paint_of(src.color_or("fill"@, i, theme.fill), "fill_opacity"@, i) {
        Some(p) => p,
        None => Paint { color: black(), opacity: None },
    }
}

/// The outline of row `i`: its colour, and how wide it is.
pub open spec fn outline_of(src: Source, theme: TextFitTheme, i: int) -> Option<(Color, Num)> {
    match src.color_or("text_stroke"@, i, theme.text_stroke) {
        Some(c) => Some((c, src.number_or("text_linewidth"@, i, theme.text_linewidth_pt))),
        None => None,
    }
}

/// Whether row `i` is in markdown.
pub open spec fn is_markdown(src: Source, i: int) -> bool {
    src.bool_or("markdown"@, i, false)
}

/// One corner of the rectangle of row `i`, as fractions of the panel.
pub open spec fn first_fractions(src: Source, i: int) -> Fractions {
    fractions_at(src, "x"@, "y"@, "x_band"@, "y_band"@, i)
}

/// The corner across from it, as fractions of the panel.
pub open spec fn second_fractions(src: Source, i: int) -> Fractions {
    fractions_at(src, "x2"@, "y2"@, "x2_band"@, "y2_band"@, i)
}

/// The rectangle of row `i`: that of its two corners, whichever comes first.
pub open spec fn target_of(src: Source, projection: Projection, i: int) -> Rect {
    let f = first_fractions(src, i);
    let g = second_fractions(src, i);
    let p = moved(src, projection.point_at(f.a, f.b), "x_offset"@, "y_offset"@, i);
    let q = moved(src, projection.point_at(g.a, g.b), "x2_offset"@, "y2_offset"@, i);
    Rect {
        x0: e_min(p.x, q.x),
        y0: e_min(p.y, q.y),
        x1: e_max(p.x, q.x),
        y1: e_max(p.y, q.y),
    }
}

/// When row `i` is drawn.
pub open spec fn c_drawn(src: Source, projection: Projection, i: int) -> Cond {
    let f = first_fractions(src, i);
    let g = second_fractions(src, i);
    c_and(
        c_panel_open(),
        c_and(
            c_and(c_and(c_finite(f.a), c_finite(f.b)), c_and(c_finite(g.a), c_finite(g.b))),
            c_rect_open(target_of(src, projection, i)),
        ),
    )
}

/// The smallest font size of row `i`, in points: half a point at least.
pub open spec fn min_pt_of(src: Source, theme: TextFitTheme, i: int) -> Expr {
    e_max(Expr::Lit(src.number_or("min_font_size"@, i, theme.min_font_pt)), e_half())
}

/// The largest font size of row `i`, in points: the smallest one at least.
pub open spec fn max_pt_of(src: Source, theme: TextFitTheme, i: int) -> Expr {
    e_max(
        Expr::Lit(src.number_or("max_font_size"@, i, theme.max_font_pt)),
        min_pt_of(src, theme, i),
    )
}

/// Where a label that leaves room above or below is placed, as a fraction of
/// that room.
pub open spec fn justify_y_named(s: Option<String>) -> Expr {
    match s {
        Some(t) => if t@ == "center"@ || t@ == "centre"@ || t@ == "middle"@ {
            e_half()
        } else if t@ == "end"@ {
            e_int(1)
        } else {
            e_int(0)
        },
        None => e_int(0),
    }
}

/// The label of row `i`. Its lines are as wide as the rectangle.
pub open spec fn label_of(src: Source, theme: TextFitTheme, i: int, target: Rect) -> Label {
    Label {
        row: i as usize,
        text: text_of(src, i)->0,
        style: style_of(src, theme, i),
        markdown: is_markdown(src, i),
        fill: fill_of(src, theme, i),
        outline: outline_of(src, theme, i),
        align: align_named(src.string_at("justify_x"@, i)),
        wrap: e_sub(target.x1, target.x0),
        wraps: Cond::Always,
    }
}

/// Whether a label fits into a rectangle.
pub open spec fn c_fits(target: Rect) -> Cond {
    c_and(
        c_ge(e_sub(target.x1, target.x0), Expr::Var(Quantity::TextWidth)),
        c_ge(e_sub(target.y1, target.y0), Expr::Var(Quantity::TextHeight)),
    )
}

/// The top left corner of the text of row `i`: at the left edge of its
/// rectangle, and as far down as the room left allows.
pub open spec fn text_corner(src: Source, i: int, target: Rect) -> Point {
    Point {
        x: target.x0,
        y: e_add(
            target.y0,
            e_mul(
                justify_y_named(src.string_at("justify_y"@, i)),
                e_max(
                    e_sub(e_sub(target.y1, target.y0), Expr::Var(Quantity::TextHeight)),
                    e_int(0),
                ),
            ),
        ),
    }
}

/// How row `i` is turned: about the middle of its rectangle.
pub open spec fn xform_of(src: Source, i: int, target: Rect) -> Xform {
    turned(
        src.number_or("angle"@, i, Num { bits: 0 }),
        Point {
            x: e_mul(e_half(), e_add(target.x0, target.x1)),
            y: e_mul(e_half(), e_add(target.y0, target.y1)),
        },
    )
}

/// What the background of row `i` is filled with.
pub open spec fn bg_fill_of(src: Source, i: int) -> Option<Paint> {
    src.paint_of(src.color_at("bg_fill"@, i), "bg_fill_opacity"@, i)
}

/// What the background of row `i` is stroked with.
pub open spec fn bg_stroke_of(src: Source, i: int) -> Option<Paint> {
    src.paint_of(src.color_at("bg_stroke"@, i), "bg_stroke_opacity"@, i)
}

/// The padding of the background of row `i`, in pixels.
pub open spec fn padding_px(src: Source, i: int) -> Expr {
    e_px(Expr::Lit(src.number_or("bg_padding"@, i, Num { bits: 0 })))
}

/// The rectangle of the background of row `i`: that of its text, and padding.
pub open spec fn bg_rect(src: Source, i: int, target: Rect) -> Rect {
    let at = text_corner(src, i, target);
    let pad = padding_px(src, i);
    let descent = Expr::Var(Quantity::TextDescent);
    let left = e_sub(at.x, pad);
    let top = e_sub(at.y, top_padding(pad, descent));
    Rect {
        x0: left,
        y0: top,
        x1: e_add(left, e_add(Expr::Var(Quantity::TextWidth), e_mul(e_int(2), pad))),
        y1: e_add(
            top,
            e_add(
                e_add(Expr::Var(Quantity::TextHeight), top_padding(pad, descent)),
                fitted_bottom_padding(pad, descent),
            ),
        ),
    }
}

/// The background of row `i`, turned by `xform`.
pub open spec fn backdrop_of(
    src: Source,
    theme: TextFitTheme,
    i: int,
    target: Rect,
    xform: Xform,
) -> Backdrop {
    Backdrop {
        rect: bg_rect(src, i, target),
        fill: bg_fill_of(src, i),
        stroke: bg_stroke_of(src, i),
        linewidth: src.number_or("bg_linewidth"@, i, theme.bg_linewidth_pt),
        corner_radius: src.number_or("bg_corner_radius"@, i, Num { bits: 0 }),
        xform,
        pick: pick_for(src.number_at("pick_id"@, i)),
    }
}

/// The steps that draw the glyphs of row `i`: an outline first, where it has
/// any width.
pub open spec fn glyph_steps(
    src: Source,
    theme: TextFitTheme,
    i: int,
    target: Rect,
    xform: Xform,
    when: Cond,
) -> Seq<Step> {
    let at = text_corner(src, i, target);
    let pick = pick_for(src.number_at("pick_id"@, i));
    if is_markdown(src, i) {
        seq![Step { when, op: Op::RichText { at, xform, pick } }]
    } else {
        let glyphs = Step { when, op: Op::Text { at, xform, paint: fill_of(src, theme, i), pick } };
        match outline_of(src, theme, i) {
            Some((color, width)) => seq![
                Step {
                    when: c_and(when, c_positive(e_px(Expr::Lit(width)))),
                    op: Op::TextOutline {
                        at,
                        xform,
                        paint: Paint { color, opacity: None },
                        width: e_px(Expr::Lit(width)),
                    },
                },
                glyphs,
            ],
            None => seq![glyphs],
        }
    }
}

/// The background and the glyphs of row `i`, turned by `xform`.
pub open spec fn content_steps(
    src: Source,
    theme: TextFitTheme,
    i: int,
    target: Rect,
    xform: Xform,
    when: Cond,
) -> Seq<Step> {
    backdrop_steps(backdrop_of(src, theme, i, target, xform), when) + glyph_steps(
        src,
        theme,
        i,
        target,
        xform,
        when,
    )
}

/// What is drawn for row `i` where it fits at no size: the same, clipped to its
/// rectangle. The clip is turned, and what it clips turns with it.
pub open spec fn clipped_steps(
    src: Source,
    theme: TextFitTheme,
    i: int,
    target: Rect,
    when: Cond,
) -> Seq<Step> {
    seq![
        Step {
            when,
            op: Op::PushClip { path: Path::Rect(target), xform: xform_of(src, i, target) },
        },
    ] + content_steps(src, theme, i, target, Xform::Identity, when) + seq![
        Step { when, op: Op::PopLayer },
    ]
}

/// Whether `p` is the plan for row `i`.
pub open spec fn is_plan(
    p: FitPlan,
    src: Source,
    theme: TextFitTheme,
    projection: Projection,
    i: int,
) -> bool {
    let target = target_of(src, projection, i);
    let when = c_drawn(src, projection, i);
    &&& p.label == label_of(src, theme, i, target)
    &&& p.when == when
    &&& p.min_pt == min_pt_of(src, theme, i)
    &&& p.max_pt == max_pt_of(src, theme, i)
    &&& p.fits == c_fits(target)
    &&& p.fitted@ == content_steps(src, theme, i, target, xform_of(src, i, target), when)
    &&& p.clipped@ == clipped_steps(src, theme, i, target, when)
}

/// The rows among the first `n` that have a text, in order.
pub open spec fn labelled_rows(src: Source, n: nat) -> Seq<int>
    decreases n,
{
    if n == 0 {
        Seq::empty()
    } else {
        let before = labelled_rows(src, (n - 1) as nat);
        if text_of(src, n - 1) is Some {
            before.push(n - 1)
        } else {
            before
        }
    }
}

/// Whether `plans` are those of the first `n` rows, for each row with a text
/// one.
pub open spec fn are_plans(
    plans: Seq<FitPlan>,
    src: Source,
    theme: TextFitTheme,
    projection: Projection,
    n: nat,
) -> bool {
    let rows = labelled_rows(src, n);
    &&& plans.len() == rows.len()
    &&& forall|k: int|
        0 <= k < plans.len() ==> is_plan(#[trigger] plans[k], src, theme, projection, rows[k])
}

/// Whether every corner of the rectangles varies by row.
pub open spec fn is_placed(src: Source) -> bool {
    &&& src.places_rows("x"@)
    &&& src.places_rows("y"@)
    &&& src.places_rows("x2"@)
    &&& src.places_rows("y2"@)
}

fn style_for(src: &Bound, theme: &TextFitTheme, i: usize) -> (r: TextStyle)
    ensures
        r == style_of(src@, *theme, i as int),
{
    let weight: u16 = match src.number_at("weight", i) {
        Some(n) => n.nearest_between(1, 1000),
        None => theme.weight,
    };
    TextStyle {
        size_pt: Num { bits: 0 },
        weight,
        italic: src.italic_at("italic", i),
        spacing: Spacing::Tracking(src.number_or("tracking", i, theme.tracking)),
        underline: src.bool_or("underline", i, theme.underline),
        strikethrough: src.bool_or("strikethrough", i, theme.strikethrough),
        family: src.string_at("family", i),
    }
}

fn label_for(src: &Bound, theme: &TextFitTheme, i: usize, text: String, target: &Rect) -> (r: Label)
    requires
        text_of(src@, i as int) == Some(text),
    ensures
        r == label_of(src@, *theme, i as int, *target),
{
    let fill = match src.paint_of(src.color_or("fill", i, theme.fill), "fill_opacity", i) {
        Some(p) => p,
        None => Paint { color: default_fill(), opacity: None },
    };
    let outline = match src.color_or("text_stroke", i, theme.text_stroke) {
        Some(c) => Some((c, src.number_or("text_linewidth", i, theme.text_linewidth_pt))),
        None => None,
    };
    Label {
        row: i,
        text,
        style: style_for(src, theme, i),
        markdown: src.bool_or("markdown", i, false),
        fill,
        outline,
        align: src.align_at("justify_x", i),
        wrap: target.x1.again().minus(target.x0.again()),
        wraps: Cond::Always,
    }
}

fn justify_y_at(src: &Bound, i: usize) -> (r: Expr)
    ensures
        r == justify_y_named(src@.string_at("justify_y"@, i as int)),
{
    match src.string_at("justify_y", i) {
        Some(s) => if same_name(s.as_str(), "center") || same_name(s.as_str(), "centre")
            || same_name(s.as_str(), "middle") {
            Expr::Ratio(1, 2)
        } else if same_name(s.as_str(), "end") {
            Expr::Ratio(1, 1)
        } else {
            Expr::Ratio(0, 1)
        },
        None => Expr::Ratio(0, 1),
    }
}

fn corner_for(src: &Bound, i: usize, target: &Rect) -> (r: Point)
    ensures
        r == text_corner(src@, i as int, *target),
{
    let h = target.y1.again().minus(target.y0.again());
    let room = h.minus(Expr::Var(Quantity::TextHeight)).at_least(Expr::Ratio(0, 1));
    Point {
        x: target.x0.again(),
        y: target.y0.again().plus(justify_y_at(src, i).times(room)),
    }
}

fn backdrop_for(
    src: &Bound,
    theme: &TextFitTheme,
    i: usize,
    at: &Point,
    xform: &Xform,
    Ghost(target): Ghost<Rect>,
) -> (r: Backdrop)
    requires
        *at == text_corner(src@, i as int, target),
    ensures
        r == backdrop_of(src@, *theme, i as int, target, *xform),
{
    let pad = Expr::Lit(src.number_or("bg_padding", i, Num { bits: 0 })).in_px();
    let (top, bottom) = fitted_paddings(&pad);
    let w = Expr::Var(Quantity::TextWidth).plus(Expr::Ratio(2, 1).times(pad.again()));
    let h = Expr::Var(Quantity::TextHeight).plus(top.again()).plus(bottom);
    let x0 = at.x.again().minus(pad);
    let y0 = at.y.again().minus(top);
    let rect = Rect { x0: x0.again(), y0: y0.again(), x1: x0.plus(w), y1: y0.plus(h) };
    Backdrop {
        rect,
        fill: src.paint_of(src.color_at("bg_fill", i), "bg_fill_opacity", i),
        stroke: src.paint_of(src.color_at("bg_stroke", i), "bg_stroke_opacity", i),
        linewidth: src.number_or("bg_linewidth", i, theme.bg_linewidth_pt),
        corner_radius: src.number_or("bg_corner_radius", i, Num { bits: 0 }),
        xform: xform.again(),
        pick: src.pick_at("pick_id", i),
    }
}

fn plan_content(
    src: &Bound,
    theme: &TextFitTheme,
    i: usize,
    target: &Rect,
    label: &Label,
    xform: Xform,
    when: &Cond,
    out: &mut Vec<Step>,
)
    requires
        *label == label_of(src@, *theme, i as int, *target),
    ensures
        final(out)@ == old(out)@ + content_steps(
            src@,
            *theme,
            i as int,
            *target,
            xform,
            *when,
        ),
{
    let ghost before = out@;
    let at = corner_for(src, i, target);
    let b = backdrop_for(src, theme, i, &at, &xform, Ghost(*target));
    draw_backdrop(b, when, out);
    let ghost behind = out@;
    let ghost turned_by = xform;
    let pick = src.pick_at("pick_id", i);
    if label.markdown {
        out.push(Step { when: when.again(), op: Op::RichText { at, xform, pick } });
    } else {
        if let Some((color, width)) = label.outline {
            let px = Expr::Lit(width).in_px();
            out.push(
                Step {
                    when: when.again().and(px.is_positive()),
                    op: Op::TextOutline {
                        at: at.again(),
                        xform: xform.again(),
                        paint: Paint { color, opacity: None },
                        width: px,
                    },
                },
            );
        }
        out.push(
            Step { when: when.again(), op: Op::Text { at, xform, paint: label.fill, pick } },
        );
    }
    assert(out@ =~= behind + glyph_steps(
        src@,
        *theme,
        i as int,
        *target,
        turned_by,
        *when,
    ));
    assert(out@ =~= before + content_steps(
        src@,
        *theme,
        i as int,
        *target,
        turned_by,
        *when,
    ));
}

fn target_for(src: &Bound, projection: &Projection, i: usize) -> (r: (Rect, Cond))
    requires
        is_placed(src@),
    ensures
        r.0 == target_of(src@, *projection, i as int),
        r.1 == c_drawn(src@, *projection, i as int),
{
    let a = start_names();
    let b = end_names();
    let f = fractions_of(src, &a, i);
    let g = fractions_of(src, &b, i);
    let p = offset_point(src, projection.project(&f.a, &f.b), &a, i);
    let q = offset_point(src, projection.project(&g.a, &g.b), &b, i);
    let rect = Rect {
        x0: p.x.again().at_most(q.x.again()),
        y0: p.y.again().at_most(q.y.again()),
        x1: p.x.at_least(q.x),
        y1: p.y.at_least(q.y),
    };
    let placed = f.a.is_finite().and(f.b.is_finite()).and(g.a.is_finite().and(g.b.is_finite()));
    let drawn = Cond::panel_open().and(placed.and(rect_is_open(&rect)));
    (rect, drawn)
}

fn plan_row(src: &Bound, theme: &TextFitTheme, projection: &Projection, i: usize, text: String) -> (r:
    FitPlan)
    requires
        is_placed(src@),
        text_of(src@, i as int) == Some(text),
    ensures
        is_plan(r, src@, *theme, *projection, i as int),
{
    let (target, when) = target_for(src, projection, i);
    let label = label_for(src, theme, i, text, &target);
    let min_pt = Expr::Lit(src.number_or("min_font_size", i, theme.min_font_pt)).at_least(
        Expr::Ratio(1, 2),
    );
    let max_pt = Expr::Lit(src.number_or("max_font_size", i, theme.max_font_pt)).at_least(
        min_pt.again(),
    );
    let w = target.x1.again().minus(target.x0.again());
    let h = target.y1.again().minus(target.y0.again());
    let fits = Cond::ge(w, Expr::Var(Quantity::TextWidth)).and(
        Cond::ge(h, Expr::Var(Quantity::TextHeight)),
    );
    let centre = Point {
        x: Expr::Ratio(1, 2).times(target.x0.again().plus(target.x1.again())),
        y: Expr::Ratio(1, 2).times(target.y0.again().plus(target.y1.again())),
    };
    let xform = turn(src.number_or("angle", i, Num { bits: 0 }), centre);
    let mut fitted: Vec<Step> = Vec::new();
    plan_content(src, theme, i, &target, &label, xform.again(), &when, &mut fitted);
    assert(fitted@ =~= content_steps(src@, *theme, i as int, target, xform, when));
    let ghost turned_by = xform;
    let mut clipped: Vec<Step> = Vec::new();
    clipped.push(
        Step { when: when.again(), op: Op::PushClip { path: Path::Rect(target.again()), xform } },
    );
    let ghost pushed = clipped@;
    plan_content(src, theme, i, &target, &label, Xform::Identity, &when, &mut clipped);
    clipped.push(Step { when: when.again(), op: Op::PopLayer });
    assert(turned_by == xform_of(src@, i as int, target));
    assert(clipped@ =~= clipped_steps(src@, *theme, i as int, target, when));
    FitPlan { label, when, min_pt, max_pt, fits, fitted, clipped }
}

impl TextFitGeom {
    /// The labels, and what is drawn for each.
    pub fn draw(&self, scales: &ScaleOutputs, theme: &TextFitTheme, projection: &Projection) -> (r:
        Vec<FitPlan>)
        ensures
            ({
                let src = Source {
                    channels: self.state.channels@,
                    values: scales.values@,
                    positions: scales.positions@,
                };
                &&& is_placed(src) ==> are_plans(
                    r@,
                    src,
                    *theme,
                    *projection,
                    self.state.keys.count(),
                )
                &&& !is_placed(src) ==> r@.len() == 0
            }),
    {
        let src = Bound { channels: &self.state.channels, scales };
        let mut out: Vec<FitPlan> = Vec::new();
        if !src.places_rows("x") || !src.places_rows("y") || !src.places_rows("x2")
            || !src.places_rows("y2") {
            return out;
        }
        let n: usize = self.len();
        let mut i: usize = 0;
        while i < n
            invariant
                i <= n,
                is_placed(src@),
                are_plans(out@, src@, *theme, *projection, i as nat),
            decreases n - i,
        {
            let ghost before = out@;
            let ghost rows = labelled_rows(src@, i as nat);
            let text = src.string_at("text", i);
            let shown = match &text {
                Some(s) => s.as_str().unicode_len() > 0,
                None => false,
            };
            if let Some(s) = text {
                if shown {
                    assert(text_of(src@, i as int) == Some(s));
                    let p = plan_row(&src, theme, projection, i, s);
                    out.push(p);
                    let ghost after = labelled_rows(src@, (i + 1) as nat);
                    assert(after == rows.push(i as int));
                    assert forall|k: int| 0 <= k < out@.len() implies is_plan(
                        #[trigger] out@[k],
                        src@,
                        *theme,
                        *projection,
                        after[k],
                    ) by {
                        if k < before.len() {
                            assert(out@[k] == before[k]);
                            assert(after[k] == rows[k]);
                        }
                    }
                }
            }
            assert(are_plans(out@, src@, *theme, *projection, (i + 1) as nat));
            i = i + 1;
        }
        out
    }
}

/// Whether a step opens or closes a layer.
pub open spec fn is_layer_step(s: Step) -> bool {
    s.op is PushClip || s.op is PopLayer
}

/// A clip that is pushed is popped: the first step pushes it, the last one pops
/// it, under the same condition, and no step between them touches a layer. What
/// fits is drawn without any.
pub proof fn clips_are_popped(src: Source, theme: TextFitTheme, i: int, target: Rect, when: Cond)
    ensures
        ({
            let s = clipped_steps(src, theme, i, target, when);
            &&& s.len() >= 2
            &&& s[0].op is PushClip && s[0].when == when
            &&& s[s.len() - 1].op is PopLayer && s[s.len() - 1].when == when
            &&& forall|k: int| 0 < k < s.len() - 1 ==> !is_layer_step(#[trigger] s[k])
        }),
        ({
            let xform = xform_of(src, i, target);
            let s = content_steps(src, theme, i, target, xform, when);
            forall|k: int| 0 <= k < s.len() ==> !is_layer_step(#[trigger] s[k])
        }),
{
    let inner = content_steps(src, theme, i, target, Xform::Identity, when);
    let s = clipped_steps(src, theme, i, target, when);
    assert forall|k: int| 0 < k < s.len() - 1 implies !is_layer_step(#[trigger] s[k]) by {
        assert(s[k] == inner[k - 1]);
    }
}

/// A label that fits lies within its rectangle.
pub proof fn fitted_label_is_inside(src: Source, i: int, target: Rect, env: Env)
    requires
        holds(c_fits(target), env),
    ensures
        ({
            let at = text_corner(src, i, target);
            let w = (env.var)(Quantity::TextWidth);
            let h = (env.var)(Quantity::TextHeight);
            &&& value(target.x0, env) == value(at.x, env)
            &&& value(at.x, env) + w <= value(target.x1, env)
            &&& value(target.y0, env) <= value(at.y, env)
            &&& value(at.y, env) + h <= value(target.y1, env)
        }),
{
    let w = e_sub(target.x1, target.x0);
    let h = e_sub(target.y1, target.y0);
    let tw = Expr::Var(Quantity::TextWidth);
    let th = Expr::Var(Quantity::TextHeight);
    reveal_with_fuel(holds, 3);
    assert(value(tw, env) == (env.var)(Quantity::TextWidth));
    assert(value(th, env) == (env.var)(Quantity::TextHeight));
    assert(holds(c_ge(w, tw), env) && holds(c_ge(h, th), env));
    let j = justify_y_named(src.string_at("justify_y"@, i));
    assert(0real / 1real == 0real && 1real / 1real == 1real);
    assert(value(e_int(0), env) == 0real);
    assert(value(e_int(1), env) == 1real);
    assert(value(e_half(), env) == 1real / 2real);
    let jv = value(j, env);
    assert(0real <= jv <= 1real);
    let room = e_max(e_sub(h, th), e_int(0));
    let rv = value(room, env);
    assert(value(e_sub(h, th), env) == value(h, env) - value(th, env));
    assert(rv == value(h, env) - value(th, env));
    assert(value(e_mul(j, room), env) == jv * rv);
    assert(0real <= jv * rv <= rv) by (nonlinear_arith)
        requires
            0real <= jv <= 1real,
            rv >= 0real,
    ;
}

/// The range that is searched is never empty, and every size in it is at least
/// half a point.
pub proof fn size_range_is_open(src: Source, theme: TextFitTheme, i: int, env: Env)
    ensures
        1real / 2real <= value(min_pt_of(src, theme, i), env) <= value(
            max_pt_of(src, theme, i),
            env,
        ),
{
    assert(value(e_half(), env) == 1real / 2real);
}

} // verus!
