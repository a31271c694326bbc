//! Plots: what they hold, and what they put where.
//!
//! A plot is bound to a patch of a composition. It holds which scale each channel
//! goes through, its geoms, axes and legends, and its texts. The scales themselves
//! are shared between plots, by name.

pub mod any_geom;
pub mod aspect;
pub mod chrome;
pub mod draw;
pub mod error;
pub mod layout;
pub mod wire;

use vstd::prelude::*;

use crate::ids::{AxisId, GeomId, LegendId};
use crate::image_registry::ImageRegistry;
use crate::names::NameMap;
use crate::num::Num;
use crate::plot::any_geom::AnyGeom;
use crate::plot::aspect::{
    aspect_of_extent, aspect_of_ranges, bound_range, extent_aspect, overlay_for, overlay_of,
    range_of, ratio_aspect, square_aspect, AspectMode, AspectOverlay, PanelAspect, ScaleRange,
    ScaleRegistry,
};
use crate::plot::chrome::{Axis, AxisPlacement, Legend};
use crate::plot::error::{PlotError, ProjectionKind};
use crate::plot::layout::Composition;
use crate::expr::{Cond, Expr};
use crate::projection::Projection;
use crate::slot::AxisSide;
use crate::value::Value;

verus! {

/// The shapes that markers are drawn with, by name.
pub struct ShapeRegistry {
    /// Whether the painter's own shapes are among them.
    pub builtins: bool,
    /// The shapes besides them, as the painter knows them.
    pub shapes: NameMap<u64>,
}

impl ShapeRegistry {
    /// No shapes at all.
    pub fn new() -> (r: ShapeRegistry)
        ensures
            !r.builtins,
            r.shapes@ == Map::<Seq<char>, u64>::empty(),
    {
        ShapeRegistry { builtins: false, shapes: NameMap::new() }
    }

    /// The painter's own shapes.
    pub fn with_builtins() -> (r: ShapeRegistry)
        ensures
            r.builtins,
            r.shapes@ == Map::<Seq<char>, u64>::empty(),
    {
        ShapeRegistry { builtins: true, shapes: NameMap::new() }
    }

    /// Adds a shape, or puts it in the place of another.
    pub fn insert(&mut self, name: &str, shape: u64)
        ensures
            final(self).shapes@ == old(self).shapes@.insert(name@, shape),
            final(self).builtins == old(self).builtins,
    {
        self.shapes.insert(name.to_owned(), shape);
    }
}

/// Changes to a theme.
pub struct ThemePart {
    /// What is changed, by name.
    pub settings: NameMap<Value>,
}

/// The strips of a plot, one for each side at most.
#[derive(Debug)]
pub struct Strips {
    /// Above the panel.
    pub top: Option<String>,
    /// Right of the panel.
    pub right: Option<String>,
    /// Below the panel.
    pub bottom: Option<String>,
    /// Left of the panel.
    pub left: Option<String>,
}

impl Strips {
    /// The strip of a side.
    pub open spec fn at(self, side: AxisSide) -> Option<String> {
        match side {
            AxisSide::Top => self.top,
            AxisSide::Right => self.right,
            AxisSide::Bottom => self.bottom,
            AxisSide::Left => self.left,
        }
    }

    /// The strips with that of one side replaced.
    pub open spec fn with(self, side: AxisSide, text: Option<String>) -> Strips {
        match side {
            AxisSide::Top => Strips { top: text, ..self },
            AxisSide::Right => Strips { right: text, ..self },
            AxisSide::Bottom => Strips { bottom: text, ..self },
            AxisSide::Left => Strips { left: text, ..self },
        }
    }
}

/// A plot.
pub struct Plot {
    /// The patch.
    pub patch_id: String,
    /// The scale that each channel goes through, by name.
    pub bindings: NameMap<String>,
    /// The geoms, in the order in which they are drawn.
    pub geoms: Vec<(GeomId, AnyGeom)>,
    /// The handle of the next geom.
    pub next_geom_id: u32,
    /// The title.
    pub title: Option<String>,
    /// The subtitle.
    pub subtitle: Option<String>,
    /// The caption.
    pub caption: Option<String>,
    /// The shapes that geoms find by name.
    pub shapes: ShapeRegistry,
    /// The images that geoms find by name.
    pub images: ImageRegistry,
    /// The axes. None is drawn that was not added.
    pub axes: Vec<Axis>,
    /// The handle of the next axis.
    pub next_axis_id: u32,
    /// The legends. None is drawn that was not added.
    pub legends: Vec<Legend>,
    /// The handle of the next legend.
    pub next_legend_id: u32,
    /// How fractions become points.
    pub projection: Projection,
    /// Whether geoms are clipped to the outline of the panel.
    pub clip: bool,
    /// Whether every draw brings the diffs of the geoms up to date.
    pub track_identity: bool,
    /// Whether something changed since the last draw.
    pub dirty: bool,
    /// How long one unit across is in units up.
    pub cartesian_aspect_ratio: Option<Num>,
    /// How the proportion is kept.
    pub aspect_mode: AspectMode,
    /// What the plot changes about the theme.
    pub theme_override: Option<ThemePart>,
    /// The strips.
    pub strips: Strips,
}

/// Whether `p` is a plot that nothing was done to yet.
pub open spec fn is_new(p: Plot) -> bool {
    &&& p.bindings@ == Map::<Seq<char>, String>::empty()
    &&& p.geoms@.len() == 0 && p.next_geom_id == 0
    &&& p.title is None && p.subtitle is None && p.caption is None
    &&& p.shapes.builtins && p.shapes.shapes@ == Map::<Seq<char>, u64>::empty()
    &&& p.images@ == Map::<Seq<char>, crate::image_registry::Image>::empty()
    &&& p.axes@.len() == 0 && p.next_axis_id == 0
    &&& p.legends@.len() == 0 && p.next_legend_id == 0
    &&& p.projection is Cartesian
    &&& p.clip && !p.track_identity && p.dirty
    &&& p.cartesian_aspect_ratio is None && p.aspect_mode == AspectMode::Panel
    &&& p.theme_override is None
    &&& p.strips == (Strips { top: None, right: None, bottom: None, left: None })
}

/// The place of the first geom with a handle among the first `n`; `n` where
/// there is none.
pub open spec fn geom_place(geoms: Seq<(GeomId, AnyGeom)>, id: GeomId, n: nat) -> int
    decreases n,
{
    if n == 0 {
        0
    } else {
        let p = geom_place(geoms, id, (n - 1) as nat);
        if p < n - 1 {
            p
        } else if geoms[n - 1].0 == id {
            n - 1
        } else {
            n as int
        }
    }
}

impl Plot {
    /// The place of a geom; the number of geoms where there is none with the
    /// handle.
    pub open spec fn place_of(self, id: GeomId) -> int {
        geom_place(self.geoms@, id, self.geoms@.len())
    }

    /// Whether a geom with the handle is there.
    pub open spec fn has_geom(self, id: GeomId) -> bool {
        self.place_of(id) < self.geoms@.len()
    }

    /// Whether every handle is one that was given out.
    pub open spec fn ids_given_out(self) -> bool {
        forall|k: int| 0 <= k < self.geoms@.len() ==> (#[trigger] self.geoms@[k]).0.0 < self.next_geom_id
    }

    /// A plot on a patch. The patch has to be there.
    pub fn new(composition: &Composition, patch_id: &str) -> (r: Plot)
        requires
            composition.has_patch(patch_id@),
        ensures
            r.patch_id@ == patch_id@,
            is_new(r),
    {
        let p = Plot {
            patch_id: patch_id.to_owned(),
            bindings: NameMap::new(),
            geoms: Vec::new(),
            next_geom_id: 0,
            title: None,
            subtitle: None,
            caption: None,
            shapes: ShapeRegistry::with_builtins(),
            images: ImageRegistry::new(),
            axes: Vec::new(),
            next_axis_id: 0,
            legends: Vec::new(),
            next_legend_id: 0,
            projection: Projection::Cartesian,
            clip: true,
            track_identity: false,
            dirty: true,
            cartesian_aspect_ratio: None,
            aspect_mode: AspectMode::Panel,
            theme_override: None,
            strips: Strips { top: None, right: None, bottom: None, left: None },
        };
        p
    }

    /// A plot on a patch, if the patch is there.
    pub fn try_new(composition: &Composition, patch_id: &str) -> (r: Result<Plot, PlotError>)
        ensures
            match r {
                Ok(p) => composition.has_patch(patch_id@) && p.patch_id@ == patch_id@ && is_new(p),
                Err(e) => {
                    &&& !composition.has_patch(patch_id@)
                    &&& e matches PlotError::UnknownPatch(id) && id@ == patch_id@
                },
            },
    {
        if !composition.contains_patch_id(patch_id) {
            return Err(PlotError::UnknownPatch(patch_id.to_owned()));
        }
        Ok(Plot::new(composition, patch_id))
    }
}

// ---- what a plot is set up with ----

impl Plot {
    /// Changes the theme for this plot.
    pub fn theme_override(self, part: ThemePart) -> (r: Plot)
        ensures
            r == (Plot { theme_override: Some(part), ..self }),
    {
        let mut p = self;
        p.theme_override = Some(part);
        p
    }

    /// Changes the theme for this plot, or no longer does.
    pub fn set_theme_override(&mut self, part: Option<ThemePart>)
        ensures
            *final(self) == (Plot { theme_override: part, dirty: true, ..*old(self) }),
    {
        self.theme_override = part;
        self.dirty = true;
    }

    /// What the plot changes about the theme.
    pub fn theme_override_ref(&self) -> (r: Option<&ThemePart>)
        ensures
            match r {
                Some(t) => self.theme_override == Some(*t),
                None => self.theme_override is None,
            },
    {
        self.theme_override.as_ref()
    }

    /// Makes one unit across `ratio` times as long as one unit up. A ratio that
    /// is not a number above zero leaves the proportion free.
    pub fn aspect_ratio(self, ratio: Num) -> (r: Plot)
        ensures
            r == (Plot {
                cartesian_aspect_ratio: if ratio.finite() && ratio.above_zero() {
                    Some(ratio)
                } else {
                    None
                },
                ..self
            }),
    {
        let mut p = self;
        p.cartesian_aspect_ratio = if ratio.is_finite() && ratio.is_above_zero() {
            Some(ratio)
        } else {
            None
        };
        p
    }

    /// How the proportion is kept.
    pub fn aspect_mode(self, mode: AspectMode) -> (r: Plot)
        ensures
            r == (Plot { aspect_mode: mode, ..self }),
    {
        let mut p = self;
        p.aspect_mode = mode;
        p
    }

    /// How the proportion is kept.
    pub fn aspect_mode_ref(&self) -> (r: AspectMode)
        ensures
            r == self.aspect_mode,
    {
        self.aspect_mode
    }

    /// How long one unit across is in units up; none where the proportion is
    /// free.
    pub fn aspect_ratio_ref(&self) -> (r: Option<Num>)
        ensures
            r == self.cartesian_aspect_ratio,
    {
        self.cartesian_aspect_ratio
    }

    /// Whether geoms are clipped to the outline of the panel.
    pub fn clip(self, clip: bool) -> (r: Plot)
        ensures
            r == (Plot { clip, ..self }),
    {
        let mut p = self;
        p.clip = clip;
        p
    }

    /// Whether geoms are clipped to the outline of the panel.
    pub fn is_clipped(&self) -> (r: bool)
        ensures
            r == self.clip,
    {
        self.clip
    }

    /// Whether every draw brings the diffs of the geoms up to date.
    pub fn track_identity(self, track: bool) -> (r: Plot)
        ensures
            r == (Plot { track_identity: track, ..self }),
    {
        let mut p = self;
        p.track_identity = track;
        p
    }

    /// Whether every draw brings the diffs of the geoms up to date.
    pub fn tracks_identity(&self) -> (r: bool)
        ensures
            r == self.track_identity,
    {
        self.track_identity
    }

    /// The patch.
    pub fn patch_id(&self) -> (r: &str)
        ensures
            r@ == self.patch_id@,
    {
        self.patch_id.as_str()
    }

    /// How fractions become points.
    pub fn projection_ref(&self) -> (r: &Projection)
        ensures
            *r == self.projection,
    {
        &self.projection
    }

    /// How fractions become points.
    pub fn projection(self, projection: Projection) -> (r: Plot)
        ensures
            r == (Plot { projection, ..self }),
    {
        let mut p = self;
        p.projection = projection;
        p
    }

    /// The title.
    pub fn title(self, text: String) -> (r: Plot)
        ensures
            r == (Plot { title: Some(text), ..self }),
    {
        let mut p = self;
        p.title = Some(text);
        p
    }

    /// The subtitle.
    pub fn subtitle(self, text: String) -> (r: Plot)
        ensures
            r == (Plot { subtitle: Some(text), ..self }),
    {
        let mut p = self;
        p.subtitle = Some(text);
        p
    }

    /// The caption.
    pub fn caption(self, text: String) -> (r: Plot)
        ensures
            r == (Plot { caption: Some(text), ..self }),
    {
        let mut p = self;
        p.caption = Some(text);
        p
    }

    /// The title.
    pub fn title_ref(&self) -> (r: Option<&str>)
        ensures
            is_text_of(r, self.title),
    {
        text_of(&self.title)
    }

    /// The subtitle.
    pub fn subtitle_ref(&self) -> (r: Option<&str>)
        ensures
            is_text_of(r, self.subtitle),
    {
        text_of(&self.subtitle)
    }

    /// The caption.
    pub fn caption_ref(&self) -> (r: Option<&str>)
        ensures
            is_text_of(r, self.caption),
    {
        text_of(&self.caption)
    }

    /// Puts a strip on a side, in the place of any that was there.
    pub fn strip(self, side: AxisSide, text: String) -> (r: Plot)
        ensures
            r == (Plot { strips: self.strips.with(side, Some(text)), ..self }),
    {
        let mut p = self;
        match side {
            AxisSide::Top => {
                p.strips.top = Some(text);
            },
            AxisSide::Right => {
                p.strips.right = Some(text);
            },
            AxisSide::Bottom => {
                p.strips.bottom = Some(text);
            },
            AxisSide::Left => {
                p.strips.left = Some(text);
            },
        }
        p
    }

    /// Puts a strip on a side, or takes it away.
    pub fn set_strip(&mut self, side: AxisSide, text: Option<String>)
        ensures
            *final(self) == (Plot {
                strips: old(self).strips.with(side, text),
                dirty: true,
                ..*old(self)
            }),
    {
        match side {
            AxisSide::Top => {
                self.strips.top = text;
            },
            AxisSide::Right => {
                self.strips.right = text;
            },
            AxisSide::Bottom => {
                self.strips.bottom = text;
            },
            AxisSide::Left => {
                self.strips.left = text;
            },
        }
        self.dirty = true;
    }

    /// The strip of a side.
    pub fn strip_at(&self, side: AxisSide) -> (r: Option<&str>)
        ensures
            is_text_of(r, self.strips.at(side)),
    {
        match side {
            AxisSide::Top => text_of(&self.strips.top),
            AxisSide::Right => text_of(&self.strips.right),
            AxisSide::Bottom => text_of(&self.strips.bottom),
            AxisSide::Left => text_of(&self.strips.left),
        }
    }

    /// Makes a channel go through a scale, in the place of any other.
    pub fn bind(self, channel: &str, scale_name: &str) -> (r: Plot)
        ensures
            is_bound(r.bindings@, self.bindings@, channel@, scale_name@),
            r == (Plot { bindings: r.bindings, ..self }),
    {
        let mut p = self;
        let name = scale_name.to_owned();
        p.bindings.insert(channel.to_owned(), name);
        p
    }

    /// Makes a channel go through a scale, in the place of any other.
    pub fn set_binding(&mut self, channel: &str, scale_name: &str)
        ensures
            is_bound(final(self).bindings@, old(self).bindings@, channel@, scale_name@),
            *final(self) == (Plot { bindings: final(self).bindings, dirty: true, ..*old(self) }),
    {
        let name = scale_name.to_owned();
        self.bindings.insert(channel.to_owned(), name);
        self.dirty = true;
    }

    /// Takes a channel off its scale and hands back the scale's name.
    pub fn unbind(&mut self, channel: &str) -> (r: Option<String>)
        ensures
            final(self).bindings@ == old(self).bindings@.remove(channel@),
            match r {
                Some(name) => {
                    &&& old(self).bindings@.contains_key(channel@)
                    &&& name == old(self).bindings@[channel@]
                    &&& final(self).dirty
                },
                None => {
                    &&& !old(self).bindings@.contains_key(channel@)
                    &&& final(self).dirty == old(self).dirty
                },
            },
            *final(self) == (Plot {
                bindings: final(self).bindings,
                dirty: final(self).dirty,
                ..*old(self)
            }),
    {
        let removed = self.bindings.remove(channel);
        if removed.is_some() {
            self.dirty = true;
        }
        removed
    }

    /// The scale that each channel goes through, by name.
    pub fn bindings(&self) -> (r: &NameMap<String>)
        ensures
            *r == self.bindings,
    {
        &self.bindings
    }

    /// The scale that a channel goes through.
    pub fn binding(&self, channel: &str) -> (r: Option<&str>)
        ensures
            match r {
                Some(name) => self.bindings@.contains_key(channel@) && name@
                    == self.bindings@[channel@]@,
                None => !self.bindings@.contains_key(channel@),
            },
    {
        match self.bindings.get(channel) {
            Some(name) => Some(name.as_str()),
            None => None,
        }
    }

    /// The shapes that geoms find by name.
    pub fn shape_registry(self, shapes: ShapeRegistry) -> (r: Plot)
        ensures
            r == (Plot { shapes, ..self }),
    {
        let mut p = self;
        p.shapes = shapes;
        p
    }

    /// The shapes that geoms find by name.
    pub fn shape_registry_ref(&self) -> (r: &ShapeRegistry)
        ensures
            *r == self.shapes,
    {
        &self.shapes
    }

    /// Replaces the shapes that geoms find by name.
    pub fn set_shape_registry(&mut self, shapes: ShapeRegistry)
        ensures
            *final(self) == (Plot { shapes, dirty: true, ..*old(self) }),
    {
        self.shapes = shapes;
        self.dirty = true;
    }

    /// The shapes that geoms find by name, to add to them.
    pub fn shape_registry_mut(&mut self) -> (r: &mut ShapeRegistry)
        ensures
            *r == old(self).shapes,
            *final(self) == (Plot { shapes: *final(r), dirty: true, ..*old(self) }),
    {
        self.dirty = true;
        &mut self.shapes
    }

    /// The images that geoms find by name.
    pub fn image_registry(self, images: ImageRegistry) -> (r: Plot)
        ensures
            r == (Plot { images, ..self }),
    {
        let mut p = self;
        p.images = images;
        p
    }

    /// The images that geoms find by name.
    pub fn image_registry_ref(&self) -> (r: &ImageRegistry)
        ensures
            *r == self.images,
    {
        &self.images
    }

    /// Replaces the images that geoms find by name.
    pub fn set_image_registry(&mut self, images: ImageRegistry)
        ensures
            *final(self) == (Plot { images, dirty: true, ..*old(self) }),
    {
        self.images = images;
        self.dirty = true;
    }

    /// The images that geoms find by name, to add to them.
    pub fn image_registry_mut(&mut self) -> (r: &mut ImageRegistry)
        ensures
            *r == old(self).images,
            *final(self) == (Plot { images: *final(r), dirty: true, ..*old(self) }),
    {
        self.dirty = true;
        &mut self.images
    }

    /// Replaces the title.
    pub fn set_title(&mut self, text: String)
        ensures
            *final(self) == (Plot { title: Some(text), dirty: true, ..*old(self) }),
    {
        self.title = Some(text);
        self.dirty = true;
    }

    /// Takes the title away.
    pub fn clear_title(&mut self)
        ensures
            *final(self) == (Plot { title: None, dirty: true, ..*old(self) }),
    {
        self.title = None;
        self.dirty = true;
    }
}

/// Whether `r` is the text that is there, if any.
pub open spec fn is_text_of(r: Option<&str>, text: Option<String>) -> bool {
    match (r, text) {
        (Some(a), Some(b)) => a@ == b@,
        (None, None) => true,
        _ => false,
    }
}

/// Whether `after` is `before` with a channel bound to a scale.
pub open spec fn is_bound(
    after: Map<Seq<char>, String>,
    before: Map<Seq<char>, String>,
    channel: Seq<char>,
    scale: Seq<char>,
) -> bool {
    &&& after.contains_key(channel)
    &&& after[channel]@ == scale
    &&& after == before.insert(channel, after[channel])
}

fn text_of(text: &Option<String>) -> (r: Option<&str>)
    ensures
        is_text_of(r, *text),
{
    match text {
        Some(t) => Some(t.as_str()),
        None => None,
    }
}

// ---- geoms, axes and legends ----

impl Plot {
    /// Adds a geom, on top of the others, and hands back its handle.
    pub fn add_geom(&mut self, geom: AnyGeom) -> (r: GeomId)
        ensures
            r == GeomId(old(self).next_geom_id),
            final(self).geoms@ == old(self).geoms@.push((r, geom)),
            final(self).next_geom_id == (if old(self).next_geom_id == u32::MAX {
                0
            } else {
                old(self).next_geom_id + 1
            }),
            *final(self) == (Plot {
                geoms: final(self).geoms,
                next_geom_id: final(self).next_geom_id,
                dirty: true,
                ..*old(self)
            }),
    {
        let id = GeomId::new(self.next_geom_id);
        self.next_geom_id = if self.next_geom_id == u32::MAX {
            0
        } else {
            self.next_geom_id + 1
        };
        self.geoms.push((id, geom));
        self.dirty = true;
        id
    }

    /// Adds a geom that comes in a box. Its handle is a new one.
    pub fn add_boxed_geom(&mut self, geom: Box<AnyGeom>) -> (r: GeomId)
        ensures
            r == GeomId(old(self).next_geom_id),
            final(self).geoms@ == old(self).geoms@.push((r, *geom)),
            final(self).next_geom_id == (if old(self).next_geom_id == u32::MAX {
                0
            } else {
                old(self).next_geom_id + 1
            }),
            *final(self) == (Plot {
                geoms: final(self).geoms,
                next_geom_id: final(self).next_geom_id,
                dirty: true,
                ..*old(self)
            }),
    {
        self.add_geom(*geom)
    }

    fn find_geom(&self, id: GeomId) -> (r: usize)
        ensures
            r == self.place_of(id),
            r <= self.geoms@.len(),
            r < self.geoms@.len() ==> self.geoms@[r as int].0 == id,
    {
        let mut found: usize = 0;
        let mut k: usize = 0;
        while k < self.geoms.len()
            invariant
                k <= self.geoms@.len(),
                found <= k,
                found == geom_place(self.geoms@, id, k as nat),
                found < k ==> self.geoms@[found as int].0 == id,
            decreases self.geoms@.len() - k,
        {
            if found == k && self.geoms[k].0 != id {
                found = k + 1;
            }
            k = k + 1;
        }
        found
    }

    /// Takes a geom away and hands it back.
    pub fn remove_geom(&mut self, id: GeomId) -> (r: Option<AnyGeom>)
        ensures
            match r {
                Some(g) => {
                    &&& old(self).has_geom(id)
                    &&& g == old(self).geoms@[old(self).place_of(id)].1
                    &&& final(self).geoms@ == old(self).geoms@.remove(old(self).place_of(id))
                    &&& *final(self) == (Plot {
                        geoms: final(self).geoms,
                        dirty: true,
                        ..*old(self)
                    })
                },
                None => !old(self).has_geom(id) && *final(self) == *old(self),
            },
    {
        let k: usize = self.find_geom(id);
        if k < self.geoms.len() {
            let (_, geom) = self.geoms.remove(k);
            self.dirty = true;
            Some(geom)
        } else {
            None
        }
    }

    /// The geom with a handle, to be changed where it stands.
    pub fn geom_mut(&mut self, id: GeomId) -> (r: Option<&mut AnyGeom>)
        ensures
            match r {
                Some(g) => {
                    let k = old(self).place_of(id);
                    &&& old(self).has_geom(id)
                    &&& *g == old(self).geoms@[k].1
                    &&& final(self).geoms@ == old(self).geoms@.update(k, (id, *final(g)))
                    &&& *final(self) == (Plot {
                        geoms: final(self).geoms,
                        dirty: true,
                        ..*old(self)
                    })
                },
                None => !old(self).has_geom(id) && *final(self) == *old(self),
            },
    {
        let k: usize = self.find_geom(id);
        if k < self.geoms.len() {
            self.dirty = true;
            Some(&mut self.geoms[k].1)
        } else {
            None
        }
    }

    /// Changes the geom with a handle where it stands. Nothing happens where
    /// there is none.
    pub fn update_geom<F: FnOnce(&mut AnyGeom)>(&mut self, id: GeomId, f: F)
        requires
            forall|g: &mut AnyGeom|
                old(self).has_geom(id) && *g == old(self).geoms@[old(self).place_of(id)].1
                    ==> call_requires(f, (g,)),
        ensures
            !old(self).has_geom(id) ==> *final(self) == *old(self),
            old(self).has_geom(id) ==> exists|g: &mut AnyGeom|
                {
                    let k = old(self).place_of(id);
                    &&& *g == old(self).geoms@[k].1
                    &&& #[trigger] call_ensures(f, (g,), ())
                    &&& final(self).geoms@ == old(self).geoms@.update(k, (id, *final(g)))
                    &&& *final(self) == (Plot {
                        geoms: final(self).geoms,
                        dirty: true,
                        ..*old(self)
                    })
                },
    {
        if let Some(g) = self.geom_mut(id) {
            f(g);
        }
    }

    /// The geom with a handle.
    pub fn geom(&self, id: GeomId) -> (r: Option<&AnyGeom>)
        ensures
            match r {
                Some(g) => self.has_geom(id) && *g == self.geoms@[self.place_of(id)].1,
                None => !self.has_geom(id),
            },
    {
        let k: usize = self.find_geom(id);
        if k < self.geoms.len() {
            Some(&self.geoms[k].1)
        } else {
            None
        }
    }

    /// The handles of the geoms, in the order in which they are drawn.
    pub fn geom_ids(&self) -> (r: Vec<GeomId>)
        ensures
            r@ == Seq::new(self.geoms@.len(), |k: int| self.geoms@[k].0),
    {
        let mut r: Vec<GeomId> = Vec::new();
        let mut k: usize = 0;
        while k < self.geoms.len()
            invariant
                k <= self.geoms@.len(),
                r@ == Seq::new(k as nat, |j: int| self.geoms@[j].0),
            decreases self.geoms@.len() - k,
        {
            r.push(self.geoms[k].0);
            k = k + 1;
            assert(r@ =~= Seq::new(k as nat, |j: int| self.geoms@[j].0));
        }
        r
    }

    /// The geoms with their handles, in the order in which they are drawn.
    pub fn geoms(&self) -> (r: &Vec<(GeomId, AnyGeom)>)
        ensures
            *r == self.geoms,
    {
        &self.geoms
    }

    /// Whether an axis goes with the plot's projection.
    pub open spec fn suits(self, placement: AxisPlacement) -> bool {
        match placement {
            AxisPlacement::Cartesian(_) => self.projection is Cartesian,
            AxisPlacement::PolarRadius { .. } => self.projection is Polar,
            AxisPlacement::PolarAngular(_) => self.projection is Polar,
        }
    }

    /// Adds an axis that goes with the plot's projection.
    pub fn add_axis(&mut self, axis: Axis) -> (r: AxisId)
        requires
            old(self).suits(axis.placement),
            old(self).next_axis_id < u32::MAX,
        ensures
            r == AxisId(old(self).next_axis_id),
            final(self).axes@ == old(self).axes@.push(axis),
            *final(self) == (Plot {
                axes: final(self).axes,
                next_axis_id: (old(self).next_axis_id + 1) as u32,
                dirty: true,
                ..*old(self)
            }),
    {
        let id = AxisId::new(self.next_axis_id);
        self.next_axis_id = self.next_axis_id + 1;
        self.axes.push(axis);
        self.dirty = true;
        id
    }

    /// Adds an axis, if it goes with the plot's projection.
    pub fn try_add_axis(&mut self, axis: Axis) -> (r: Result<AxisId, PlotError>)
        requires
            old(self).next_axis_id < u32::MAX,
        ensures
            match r {
                Ok(id) => {
                    &&& old(self).suits(axis.placement)
                    &&& id == AxisId(old(self).next_axis_id)
                    &&& final(self).axes@ == old(self).axes@.push(axis)
                    &&& *final(self) == (Plot {
                        axes: final(self).axes,
                        next_axis_id: (old(self).next_axis_id + 1) as u32,
                        dirty: true,
                        ..*old(self)
                    })
                },
                Err(e) => {
                    &&& !old(self).suits(axis.placement)
                    &&& e == (PlotError::AxisProjectionMismatch {
                        placement: axis.placement,
                        projection: if old(self).projection is Cartesian {
                            ProjectionKind::Cartesian
                        } else {
                            ProjectionKind::Polar
                        },
                    })
                    &&& *final(self) == *old(self)
                },
            },
    {
        let projection = match &self.projection {
            Projection::Cartesian => ProjectionKind::Cartesian,
            Projection::Polar(_) => ProjectionKind::Polar,
        };
        let suits = match axis.placement {
            AxisPlacement::Cartesian(_) => projection == ProjectionKind::Cartesian,
            AxisPlacement::PolarRadius { .. } => projection == ProjectionKind::Polar,
            AxisPlacement::PolarAngular(_) => projection == ProjectionKind::Polar,
        };
        if suits {
            Ok(self.add_axis(axis))
        } else {
            Err(PlotError::AxisProjectionMismatch { placement: axis.placement, projection })
        }
    }

    /// The axes, in the order in which they were added.
    pub fn axes(&self) -> (r: &Vec<Axis>)
        ensures
            *r == self.axes,
    {
        &self.axes
    }

    /// Takes all axes away.
    pub fn clear_axes(&mut self)
        ensures
            final(self).axes@.len() == 0,
            *final(self) == (Plot { axes: final(self).axes, dirty: true, ..*old(self) }),
    {
        self.axes = Vec::new();
        self.dirty = true;
    }

    fn push_legend(&mut self, legend: Legend) -> (r: LegendId)
        requires
            old(self).next_legend_id < u32::MAX,
        ensures
            r == LegendId(old(self).next_legend_id),
            final(self).legends@ == old(self).legends@.push(legend),
            *final(self) == (Plot {
                legends: final(self).legends,
                next_legend_id: (old(self).next_legend_id + 1) as u32,
                dirty: true,
                ..*old(self)
            }),
    {
        let id = LegendId::new(self.next_legend_id);
        self.next_legend_id = self.next_legend_id + 1;
        self.legends.push(legend);
        self.dirty = true;
        id
    }

    /// Adds a legend as it is.
    pub fn add_legend(&mut self, legend: Legend) -> (r: LegendId)
        requires
            old(self).next_legend_id < u32::MAX,
        ensures
            r == LegendId(old(self).next_legend_id),
            final(self).legends@ == old(self).legends@.push(legend),
            *final(self) == (Plot {
                legends: final(self).legends,
                next_legend_id: (old(self).next_legend_id + 1) as u32,
                dirty: true,
                ..*old(self)
            }),
    {
        self.push_legend(legend)
    }

    /// Adds a legend that shares its rows with none.
    pub fn add_legend_separate(&mut self, legend: Legend) -> (r: LegendId)
        requires
            old(self).next_legend_id < u32::MAX,
        ensures
            r == LegendId(old(self).next_legend_id),
            final(self).legends@ == old(self).legends@.push(Legend { merge: false, ..legend }),
            *final(self) == (Plot {
                legends: final(self).legends,
                next_legend_id: (old(self).next_legend_id + 1) as u32,
                dirty: true,
                ..*old(self)
            }),
    {
        let mut legend = legend;
        legend.merge = false;
        self.push_legend(legend)
    }

    /// The legends, in the order in which they were added.
    pub fn legends(&self) -> (r: &Vec<Legend>)
        ensures
            *r == self.legends,
    {
        &self.legends
    }

    /// Takes all legends away.
    pub fn clear_legends(&mut self)
        ensures
            final(self).legends@.len() == 0,
            *final(self) == (Plot { legends: final(self).legends, dirty: true, ..*old(self) }),
    {
        self.legends = Vec::new();
        self.dirty = true;
    }
}

// ---- proportions and scales ----

/// The scale that a channel is shown with.
#[derive(Debug)]
pub struct ScaleChoice {
    /// Its name.
    pub name: String,
    /// Whether an overlay takes its place, where the overlay applies to it.
    pub overlaid: bool,
}

impl Plot {
    /// The shape that the panel is to take; none where it may take any.
    pub open spec fn aspect_wanted(self, scales: Map<Seq<char>, crate::plot::aspect::Scale>) -> Option<
        PanelAspect,
    > {
        if self.aspect_mode == AspectMode::Range {
            None
        } else {
            match self.projection {
                Projection::Cartesian => {
                    let x = range_of(self.bindings@, scales, "x"@);
                    let y = range_of(self.bindings@, scales, "y"@);
                    match (self.cartesian_aspect_ratio, x, y) {
                        (Some(ratio), Some(x), Some(y)) => Some(ratio_aspect(x, y, ratio)),
                        _ => None,
                    }
                },
                Projection::Polar(p) => if p.fit_to_bbox {
                    Some(extent_aspect(p.extent()))
                } else {
                    Some(square_aspect())
                },
            }
        }
    }

    /// The shape that the panel is to take; none where it may take any. A plot
    /// across and up asks for one only where it has a ratio to keep between two
    /// continuous scales. A polar one asks for that of its disk or sweep.
    pub fn desired_panel_aspect(&self, registry: &ScaleRegistry) -> (r: Option<PanelAspect>)
        ensures
            r == self.aspect_wanted(registry.scales@),
    {
        if self.aspect_mode == AspectMode::Range {
            return None;
        }
        match &self.projection {
            Projection::Cartesian => {
                let ratio: Num = match self.cartesian_aspect_ratio {
                    Some(n) => n,
                    None => return None,
                };
                let x: ScaleRange = match bound_range(&self.bindings, registry, "x") {
                    Some(x) => x,
                    None => return None,
                };
                let y: ScaleRange = match bound_range(&self.bindings, registry, "y") {
                    Some(y) => y,
                    None => return None,
                };
                Some(aspect_of_ranges(&x, &y, ratio))
            },
            Projection::Polar(p) => if p.fit_to_bbox {
                Some(aspect_of_extent(p.bounding_box_units()))
            } else {
                Some(
                    PanelAspect {
                        width: Expr::Ratio(1, 1),
                        height: Expr::Ratio(1, 1),
                        when: Cond::Always,
                    },
                )
            },
        }
    }

    /// The overlay that keeps the proportion in the panel; none where the panel
    /// keeps it, or where there is none to keep.
    pub open spec fn overlay_wanted(self, scales: Map<Seq<char>, crate::plot::aspect::Scale>) -> Option<
        AspectOverlay,
    > {
        if self.aspect_mode == AspectMode::Panel || self.projection is Polar {
            None
        } else {
            let x = range_of(self.bindings@, scales, "x"@);
            let y = range_of(self.bindings@, scales, "y"@);
            match (self.cartesian_aspect_ratio, x, y) {
                (Some(ratio), Some(x), Some(y)) => Some(
                    overlay_of(self.bindings@["x"@], x, self.bindings@["y"@], y, ratio),
                ),
                _ => None,
            }
        }
    }

    /// The overlay that keeps the proportion in the panel; none where the panel
    /// keeps it, or where there is none to keep.
    pub fn build_aspect_overlay(&self, registry: &ScaleRegistry) -> (r: Option<AspectOverlay>)
        ensures
            r == self.overlay_wanted(registry.scales@),
    {
        if self.aspect_mode != AspectMode::Range {
            return None;
        }
        let ratio: Num = match self.cartesian_aspect_ratio {
            Some(n) => n,
            None => return None,
        };
        match &self.projection {
            Projection::Cartesian => {},
            Projection::Polar(_) => return None,
        }
        let x: ScaleRange = match bound_range(&self.bindings, registry, "x") {
            Some(x) => x,
            None => return None,
        };
        let y: ScaleRange = match bound_range(&self.bindings, registry, "y") {
            Some(y) => y,
            None => return None,
        };
        match (self.bindings.get("x"), self.bindings.get("y")) {
            (Some(x_scale), Some(y_scale)) => Some(
                overlay_for(x_scale.clone(), &x, y_scale.clone(), &y, ratio),
            ),
            _ => None,
        }
    }

    /// Whether `r` is the scale that a channel is shown with: the one it is
    /// bound to, or the overlay in its place. `overlaid` is the name of the
    /// scale that an overlay takes the place of.
    pub open spec fn is_scale_for(
        self,
        r: Option<ScaleChoice>,
        scales: Map<Seq<char>, crate::plot::aspect::Scale>,
        overlaid: Option<Seq<char>>,
        channel: Seq<char>,
    ) -> bool {
        if !self.bindings@.contains_key(channel) {
            r is None
        } else {
            is_scale_named(r, scales, overlaid, self.bindings@[channel]@)
        }
    }

    /// The scale that a channel is shown with. `overlaid` is the name of the
    /// scale that an overlay takes the place of.
    pub fn scale_for(&self, registry: &ScaleRegistry, overlaid: Option<&str>, channel: &str) -> (r:
        Option<ScaleChoice>)
        ensures
            self.is_scale_for(
                r,
                registry.scales@,
                match overlaid {
                    Some(o) => Some(o@),
                    None => None,
                },
                channel@,
            ),
    {
        match self.bindings.get(channel) {
            Some(name) => scale_named(registry, overlaid, name.as_str()),
            None => None,
        }
    }

    /// Whether a channel has a scale.
    pub open spec fn has_scale_for(
        self,
        scales: Map<Seq<char>, crate::plot::aspect::Scale>,
        overlaid: Option<Seq<char>>,
        channel: Seq<char>,
    ) -> bool {
        &&& self.bindings@.contains_key(channel)
        &&& overlaid == Some(self.bindings@[channel]@) || scales.contains_key(
            self.bindings@[channel]@,
        )
    }

    /// The channel whose scale a geom's channel is shown with: its own, or the
    /// one that stands in where that has no scale.
    pub open spec fn shown_with(
        self,
        geom: AnyGeom,
        scales: Map<Seq<char>, crate::plot::aspect::Scale>,
        overlaid: Option<Seq<char>>,
        channel: Seq<char>,
    ) -> Seq<char> {
        match geom.stand_in(channel) {
            Some(other) => if self.has_scale_for(scales, overlaid, channel) {
                channel
            } else {
                other
            },
            None => channel,
        }
    }

    /// The scale that a geom's channel is shown with.
    pub fn scale_for_geom(
        &self,
        registry: &ScaleRegistry,
        overlaid: Option<&str>,
        geom: &AnyGeom,
        channel: &str,
    ) -> (r: Option<ScaleChoice>)
        ensures
            ({
                let over = match overlaid {
                    Some(o) => Some(o@),
                    None => None,
                };
                self.is_scale_for(
                    r,
                    registry.scales@,
                    over,
                    self.shown_with(*geom, registry.scales@, over, channel@),
                )
            }),
    {
        let own = self.scale_for(registry, overlaid, channel);
        match (own, geom.fallback(channel)) {
            (Some(c), _) => Some(c),
            (None, Some(other)) => self.scale_for(registry, overlaid, other),
            (None, None) => None,
        }
    }
}

/// Whether `r` is the scale with a name: the overlay where one takes its place,
/// else the shared one, if any.
pub open spec fn is_scale_named(
    r: Option<ScaleChoice>,
    scales: Map<Seq<char>, crate::plot::aspect::Scale>,
    overlaid: Option<Seq<char>>,
    name: Seq<char>,
) -> bool {
    match r {
        Some(c) => {
            &&& c.name@ == name
            &&& c.overlaid == (overlaid == Some(name))
            &&& c.overlaid || scales.contains_key(name)
        },
        None => overlaid != Some(name) && !scales.contains_key(name),
    }
}

/// The scale with a name: the overlay where one takes its place, else the shared
/// one, if any.
pub fn scale_named(registry: &ScaleRegistry, overlaid: Option<&str>, name: &str) -> (r: Option<
    ScaleChoice,
>)
    ensures
        is_scale_named(
            r,
            registry.scales@,
            match overlaid {
                Some(o) => Some(o@),
                None => None,
            },
            name@,
        ),
{
    let hit = match overlaid {
        Some(o) => crate::names::same_name(o, name),
        None => false,
    };
    if hit {
        Some(ScaleChoice { name: name.to_owned(), overlaid: true })
    } else if registry.get(name).is_some() {
        Some(ScaleChoice { name: name.to_owned(), overlaid: false })
    } else {
        None
    }
}

// ---- what holds of plots ----

proof fn place_is_first(geoms: Seq<(GeomId, AnyGeom)>, id: GeomId, n: nat)
    requires
        n <= geoms.len(),
    ensures
        0 <= geom_place(geoms, id, n) <= n,
        geom_place(geoms, id, n) < n ==> geoms[geom_place(geoms, id, n)].0 == id,
        forall|k: int| 0 <= k < geom_place(geoms, id, n) ==> (#[trigger] geoms[k]).0 != id,
    decreases n,
{
    if n > 0 {
        place_is_first(geoms, id, (n - 1) as nat);
    }
}

proof fn places_agree(a: Seq<(GeomId, AnyGeom)>, b: Seq<(GeomId, AnyGeom)>, id: GeomId, n: nat)
    requires
        n <= a.len(),
        n <= b.len(),
        forall|k: int| #![trigger a[k]] #![trigger b[k]] 0 <= k < n ==> a[k].0 == b[k].0,
    ensures
        geom_place(a, id, n) == geom_place(b, id, n),
    decreases n,
{
    if n > 0 {
        places_agree(a, b, id, (n - 1) as nat);
        assert(a[n - 1].0 == b[n - 1].0);
    }
}

/// The place of a geom is that of the first with its handle, and where there is
/// none no geom has it.
pub proof fn geoms_are_found_by_handle(plot: Plot, id: GeomId)
    ensures
        0 <= plot.place_of(id) <= plot.geoms@.len(),
        plot.has_geom(id) ==> plot.geoms@[plot.place_of(id)].0 == id,
        plot.has_geom(id) == exists|k: int| 0 <= k < plot.geoms@.len() && (#[trigger] plot.geoms@[k]).0 == id,
{
    place_is_first(plot.geoms@, id, plot.geoms@.len());
    if plot.has_geom(id) {
        let k = plot.place_of(id);
        assert(plot.geoms@[k].0 == id);
    }
}

/// A geom that was added is found by its handle, and taking it away again leaves
/// the geoms as they were. `after` is `before` with the geom added.
pub proof fn added_geoms_come_off_again(before: Plot, after: Plot, geom: AnyGeom)
    requires
        before.ids_given_out(),
        after.geoms@ == before.geoms@.push((GeomId(before.next_geom_id), geom)),
    ensures
        ({
            let id = GeomId(before.next_geom_id);
            &&& !before.has_geom(id)
            &&& after.has_geom(id)
            &&& after.geoms@[after.place_of(id)].1 == geom
            &&& after.geoms@.remove(after.place_of(id)) == before.geoms@
        }),
{
    let id = GeomId(before.next_geom_id);
    let n = before.geoms@.len();
    place_is_first(before.geoms@, id, n);
    if before.has_geom(id) {
        assert(before.geoms@[before.place_of(id)].0.0 < before.next_geom_id);
    }
    places_agree(before.geoms@, after.geoms@, id, n);
    assert(after.geoms@[n as int].0 == id);
    assert(after.place_of(id) == n);
    assert(after.geoms@.remove(n as int) =~= before.geoms@);
}

/// Adding a geom leaves every other where it was, and as long as handles do not
/// run out every handle is one that was given out.
pub proof fn handles_stay(before: Plot, after: Plot, geom: AnyGeom, id: GeomId)
    requires
        before.ids_given_out(),
        before.next_geom_id < u32::MAX,
        after.geoms@ == before.geoms@.push((GeomId(before.next_geom_id), geom)),
        after.next_geom_id == before.next_geom_id + 1,
    ensures
        after.ids_given_out(),
        before.has_geom(id) ==> after.has_geom(id) && after.place_of(id) == before.place_of(id),
{
    places_agree(before.geoms@, after.geoms@, id, before.geoms@.len());
    assert forall|k: int| 0 <= k < after.geoms@.len() implies (#[trigger] after.geoms@[k]).0.0
        < after.next_geom_id by {
        if k < before.geoms@.len() {
            assert(before.geoms@[k].0.0 < before.next_geom_id);
        }
    }
}

/// A geom that is changed is found by its handle, and so is every other, where it
/// was and as it was. `after` is `before` with the geom changed.
pub proof fn changed_geoms_stay_in_place(
    before: Plot,
    after: Plot,
    id: GeomId,
    geom: AnyGeom,
    other: GeomId,
)
    requires
        before.has_geom(id),
        after.geoms@ == before.geoms@.update(before.place_of(id), (id, geom)),
    ensures
        after.has_geom(other) == before.has_geom(other),
        after.place_of(other) == before.place_of(other),
        after.geoms@[after.place_of(id)].1 == geom,
        before.has_geom(other) && other != id ==> after.geoms@[after.place_of(other)]
            == before.geoms@[before.place_of(other)],
{
    let n = before.geoms@.len();
    place_is_first(before.geoms@, id, n);
    place_is_first(before.geoms@, other, n);
    places_agree(before.geoms@, after.geoms@, id, n);
    places_agree(before.geoms@, after.geoms@, other, n);
}

/// A strip that is put on a side is found there, and those of the other sides
/// are left alone.
pub proof fn strips_keep_to_their_side(s: Strips, side: AxisSide, other: AxisSide, text: Option<String>)
    ensures
        s.with(side, text).at(side) == text,
        side != other ==> s.with(side, text).at(other) == s.at(other),
{
}

/// The proportion is kept in one way only: where the panel is to take a shape,
/// no scale gives way, and the other way round.
pub proof fn proportion_is_kept_one_way(
    plot: Plot,
    scales: Map<Seq<char>, crate::plot::aspect::Scale>,
)
    ensures
        plot.aspect_wanted(scales) is None || plot.overlay_wanted(scales) is None,
        plot.projection is Cartesian && plot.cartesian_aspect_ratio is None ==> plot.aspect_wanted(
            scales,
        ) is None && plot.overlay_wanted(scales) is None,
{
}

} // verus!
