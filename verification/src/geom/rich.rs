//! Style sheets for labels in markdown.
//!
//! The outline of a row comes from its channels, but styled text takes its
//! outline from a style sheet. So the row's outline is folded onto the sheet's
//! root selector, and the sheet that this makes is kept: shaped text is found
//! again by the sheet it was shaped with.

use std::sync::Arc;
use vstd::prelude::*;

use crate::expr::{e_sub, value, Env};
use crate::names::{distinct_names, entry_map, entry_prefix, same_name, NameMap};
use crate::num::Num;
use crate::scene::{HAlign, Paint, Point, TextStyle, Xform};
use crate::value::{Color, Value};

verus! {

/// What a selector sets.
#[derive(Debug)]
pub struct StyleDelta {
    /// The colour of the outline.
    pub text_stroke: Option<Color>,
    /// How wide the outline is, in points.
    pub text_stroke_width: Option<Num>,
    /// Whatever else it sets, by property.
    pub rest: Arc<Vec<(String, Value)>>,
}

/// A style sheet: what each selector sets. Every span inherits from the
/// selector `base`, and what it sets itself wins.
pub struct StyleSheet {
    /// Tells sheets apart.
    pub id: u64,
    /// The selectors.
    pub selectors: NameMap<StyleDelta>,
}

/// What a sheet with an outline was made from.
#[derive(Clone, Copy, Debug, PartialEq, Eq, Structural)]
pub struct OutlineKey {
    /// The sheet it was made from.
    pub base: u64,
    /// The outline's colour.
    pub color: Color,
    /// How wide the outline is, in points.
    pub width: Num,
}

/// The sheets that outlines were folded onto, by what they were made from.
pub struct OutlineSheets {
    /// What each sheet was made from.
    pub keys: Vec<OutlineKey>,
    /// The sheets.
    pub sheets: Vec<Arc<StyleSheet>>,
    /// The sheets that they were made from.
    pub bases: Vec<Arc<StyleSheet>>,
}

impl StyleDelta {
    /// The same again.
    pub fn again(&self) -> (r: StyleDelta)
        ensures
            r == *self,
    {
        StyleDelta {
            text_stroke: self.text_stroke,
            text_stroke_width: self.text_stroke_width,
            rest: self.rest.clone(),
        }
    }
}

/// Whether `d` is what `root` sets with an outline on top.
pub open spec fn outlined(d: StyleDelta, root: Option<StyleDelta>, color: Color, width: Num) -> bool {
    &&& d.text_stroke == Some(color)
    &&& d.text_stroke_width == Some(width)
    &&& match root {
        Some(r) => d.rest == r.rest,
        None => d.rest@.len() == 0,
    }
}

/// Whether `s` is `base` with an outline folded onto its root selector.
pub open spec fn folded(s: StyleSheet, base: StyleSheet, color: Color, width: Num) -> bool {
    let root = if base.selectors@.contains_key("base"@) {
        Some(base.selectors@["base"@])
    } else {
        None
    };
    &&& s.id == base.id
    &&& s.selectors@.contains_key("base"@)
    &&& s.selectors@ == base.selectors@.insert("base"@, s.selectors@["base"@])
    &&& outlined(s.selectors@["base"@], root, color, width)
}

impl StyleSheet {
    /// A sheet without selectors.
    pub fn new(id: u64) -> (r: StyleSheet)
        ensures
            r.id == id,
            r.selectors@ == Map::<Seq<char>, StyleDelta>::empty(),
    {
        StyleSheet { id, selectors: NameMap::new() }
    }

    /// Makes a selector set something.
    pub fn set(&mut self, selector: &str, delta: StyleDelta)
        ensures
            final(self).id == old(self).id,
            final(self).selectors@ == old(self).selectors@.insert(selector@, delta),
    {
        self.selectors.insert(selector.to_owned(), delta);
    }

    /// What a selector sets.
    pub fn get(&self, selector: &str) -> (r: Option<&StyleDelta>)
        ensures
            match r {
                Some(d) => self.selectors@.contains_key(selector@) && *d
                    == self.selectors@[selector@],
                None => !self.selectors@.contains_key(selector@),
            },
    {
        self.selectors.get(selector)
    }

    fn selectors_again(&self) -> (r: NameMap<StyleDelta>)
        ensures
            r@ == self.selectors@,
    {
        let n: usize = self.selectors.len();
        let mut r: NameMap<StyleDelta> = NameMap::new();
        let ghost s = self.selectors.entry_seq();
        let mut i: usize = 0;
        proof {
            assert(s.take(0) =~= Seq::<(String, StyleDelta)>::empty());
            assert(entry_map(s.take(0)) =~= Map::<Seq<char>, StyleDelta>::empty());
        }
        while i < n
            invariant
                i <= n,
                n == s.len(),
                s == self.selectors.entry_seq(),
                distinct_names(s),
                r@ == entry_map(s.take(i as int)),
            decreases n - i,
        {
            proof {
                entry_prefix(s, i as int);
            }
            r.insert(self.selectors.name_at(i).clone(), self.selectors.value_at(i).again());
            i = i + 1;
        }
        assert(s.take(n as int) =~= s);
        r
    }

    /// The sheet with an outline folded onto its root selector.
    pub fn with_outline(&self, color: Color, width: Num) -> (r: StyleSheet)
        ensures
            folded(r, *self, color, width),
    {
        let rest = match self.get("base") {
            Some(d) => d.rest.clone(),
            None => Arc::new(Vec::new()),
        };
        let mut selectors = self.selectors_again();
        let root = StyleDelta { text_stroke: Some(color), text_stroke_width: Some(width), rest };
        selectors.insert("base".to_owned(), root);
        let r = StyleSheet { id: self.id, selectors };
        assert(r.selectors@ =~= self.selectors@.insert("base"@, r.selectors@["base"@]));
        r
    }
}

/// Whether `sheet` is the sheet for an outline: `base` itself where there is
/// none, else one that is kept already, else `base` with the outline folded onto
/// its root selector, which is kept from then on.
pub open spec fn resolves(
    before: OutlineSheets,
    after: OutlineSheets,
    base: Arc<StyleSheet>,
    outline: Option<(Color, Num)>,
    sheet: Arc<StyleSheet>,
) -> bool {
    match outline {
        None => sheet == base && after == before,
        Some((color, width)) => {
            let key = OutlineKey { base: base.id, color, width };
            &&& before.keys@.contains(key) ==> after == before && exists|i: int|
                before.keeps(key, i) && sheet == #[trigger] before.sheets@[i]
            &&& !before.keys@.contains(key) ==> {
                &&& folded(*sheet, *base, color, width)
                &&& after.keys@ == before.keys@.push(key)
                &&& after.sheets@ == before.sheets@.push(sheet)
                &&& after.bases@ == before.bases@.push(base)
            }
        },
    }
}

impl OutlineSheets {
    /// Whether every sheet that is kept is the one it was made from, with the
    /// outline that it is kept for folded onto its root selector.
    pub open spec fn wf(self) -> bool {
        &&& self.keys@.len() == self.sheets@.len() == self.bases@.len()
        &&& forall|i: int| 0 <= i < self.keys@.len() ==> #[trigger] self.is_made(i)
    }

    /// Whether sheet `i` is what it was made from, with an outline.
    pub open spec fn is_made(self, i: int) -> bool {
        &&& self.bases@[i].id == self.keys@[i].base
        &&& folded(*self.sheets@[i], *self.bases@[i], self.keys@[i].color, self.keys@[i].width)
    }

    /// Whether the id of a sheet tells it apart from all those that sheets were
    /// made from.
    pub open spec fn tells_apart(self, base: StyleSheet) -> bool {
        forall|i: int|
            0 <= i < self.bases@.len() && (#[trigger] self.bases@[i]).id == base.id
                ==> *self.bases@[i] == base
    }

    /// Whether a sheet for `key` is kept, the first of them at place `i`.
    pub open spec fn keeps(self, key: OutlineKey, i: int) -> bool {
        &&& 0 <= i < self.keys@.len()
        &&& self.keys@[i] == key
        &&& forall|j: int| 0 <= j < i ==> self.keys@[j] != key
    }

    /// No sheets.
    pub fn new() -> (r: OutlineSheets)
        ensures
            r.wf(),
            r.keys@.len() == 0,
    {
        OutlineSheets { keys: Vec::new(), sheets: Vec::new(), bases: Vec::new() }
    }

    /// Drops every sheet.
    pub fn clear(&mut self)
        ensures
            final(self).wf(),
            final(self).keys@.len() == 0,
    {
        self.keys = Vec::new();
        self.sheets = Vec::new();
        self.bases = Vec::new();
    }

    fn find(&self, key: OutlineKey) -> (r: Option<usize>)
        ensures
            match r {
                Some(i) => self.keeps(key, i as int),
                None => !self.keys@.contains(key),
            },
    {
        let mut i: usize = 0;
        while i < self.keys.len()
            invariant
                i <= self.keys@.len(),
                forall|j: int| 0 <= j < i ==> self.keys@[j] != key,
            decreases self.keys@.len() - i,
        {
            if self.keys[i] == key {
                return Some(i);
            }
            i = i + 1;
        }
        None
    }

    /// The sheet for a row: `base` itself where the row has no outline, else
    /// `base` with the outline folded onto its root selector. A sheet that is
    /// kept for the same base and outline is handed out again.
    pub fn resolve(&mut self, base: &Arc<StyleSheet>, stroke: Option<Color>, width: Num) -> (r: Arc<
        StyleSheet,
    >)
        requires
            old(self).wf(),
        ensures
            final(self).wf(),
            resolves(
                *old(self),
                *final(self),
                *base,
                match stroke {
                    Some(color) => Some((color, width)),
                    None => None,
                },
                r,
            ),
            match stroke {
                Some(color) => old(self).tells_apart(**base) ==> folded(*r, **base, color, width)
                    && final(self).tells_apart(**base),
                None => r == *base,
            },
    {
        let color: Color = match stroke {
            Some(c) => c,
            None => return base.clone(),
        };
        let key = OutlineKey { base: base.id, color, width };
        match self.find(key) {
            Some(i) => {
                let r = self.sheets[i].clone();
                assert(self.is_made(i as int));
                r
            },
            None => {
                let r = Arc::new(base.with_outline(color, width));
                let ghost before = *self;
                self.keys.push(key);
                self.sheets.push(r.clone());
                self.bases.push(base.clone());
                assert forall|i: int| 0 <= i < self.keys@.len() implies #[trigger] self.is_made(
                    i,
                ) by {
                    if i < before.keys@.len() {
                        assert(before.is_made(i));
                    }
                }
                assert forall|i: int|
                    before.tells_apart(**base) && 0 <= i < self.bases@.len() && (
                    #[trigger] self.bases@[i]).id == base.id implies *self.bases@[i] == **base by {
                    if i < before.bases@.len() {
                        assert(before.bases@[i] == self.bases@[i]);
                    }
                }
                r
            },
        }
    }
}

/// A call for a sheet: the base, the outline, and the sheet that is handed out.
pub type SheetCall = (Arc<StyleSheet>, Option<(Color, Num)>, Arc<StyleSheet>);

/// Whether each of these calls leads from one of the states to the next.
pub open spec fn are_sheet_calls(states: Seq<OutlineSheets>, calls: Seq<SheetCall>) -> bool {
    &&& states.len() == calls.len() + 1
    &&& states[0].wf()
    &&& forall|k: int|
        0 <= k < calls.len() ==> resolves(
            states[k],
            states[k + 1],
            (#[trigger] calls[k]).0,
            calls[k].1,
            calls[k].2,
        )
}

proof fn sheets_stay(states: Seq<OutlineSheets>, calls: Seq<SheetCall>, j: int, k: int)
    requires
        are_sheet_calls(states, calls),
        0 <= j <= k < states.len(),
    ensures
        states[j].keys@.len() <= states[k].keys@.len(),
        states[j].keys@.len() == states[j].sheets@.len(),
        states[k].keys@.len() == states[k].sheets@.len(),
        forall|i: int|
            #![trigger states[k].keys@[i]]
            #![trigger states[k].sheets@[i]]
            0 <= i < states[j].keys@.len() ==> states[k].keys@[i] == states[j].keys@[i]
                && states[k].sheets@[i] == states[j].sheets@[i],
    decreases k,
{
    if j < k {
        sheets_stay(states, calls, j, k - 1);
        let c = calls[k - 1];
        assert(resolves(states[k - 1], states[k - 1 + 1], c.0, c.1, c.2));
    } else if k > 0 {
        sheets_stay(states, calls, k - 1, k - 1);
        let c = calls[k - 1];
        assert(resolves(states[k - 1], states[k - 1 + 1], c.0, c.1, c.2));
    }
}

/// A sheet that was handed out once is handed out again, whatever was asked for
/// in between, and nothing more is kept: of any number of calls, any two with the
/// same base and outline hand out one sheet.
pub proof fn outline_sheets_are_kept(
    states: Seq<OutlineSheets>,
    calls: Seq<SheetCall>,
    j: int,
    k: int,
)
    requires
        are_sheet_calls(states, calls),
        0 <= j < k < calls.len(),
        calls[j].0 == calls[k].0,
        calls[j].1 == calls[k].1,
    ensures
        calls[k].2 == calls[j].2,
        states[k + 1] == states[k],
{
    let (base, outline, first) = calls[j];
    let second = calls[k].2;
    let before = states[j];
    let between = states[j + 1];
    let later = states[k];
    assert(resolves(before, between, base, outline, first));
    assert(resolves(later, states[k + 1], calls[k].0, calls[k].1, second));
    if let Some((color, width)) = outline {
        let key = OutlineKey { base: base.id, color, width };
        sheets_stay(states, calls, j, j + 1);
        sheets_stay(states, calls, j + 1, k);
        let n = before.keys@.len() as int;
        let at = if before.keys@.contains(key) {
            choose|i: int| before.keeps(key, i) && first == #[trigger] before.sheets@[i]
        } else {
            n
        };
        assert(between.keys@[at] == key && between.sheets@[at] == first);
        assert(later.keys@[at] == key && later.sheets@[at] == first);
        assert(later.keys@.contains(key));
        let i = choose|i: int| later.keeps(key, i) && second == #[trigger] later.sheets@[i];
        if i < at {
            assert(later.keys@[i] == between.keys@[i]);
            if before.keys@.contains(key) {
                assert(before.keys@[i] != key);
            } else {
                assert(before.keys@[i] == key);
            }
        }
        if at < i {
            assert(later.keys@[at] != key);
        }
    }
}

/// How wide the lines of styled text may be.
#[derive(Clone, Copy, Debug, PartialEq, Eq, Structural)]
pub enum RichWidth {
    /// As wide as they come.
    Natural,
    /// This wide, in pixels: the pattern of a single-precision number.
    Fixed(u32),
}

/// All that the shape of styled text depends on.
#[derive(Debug)]
pub struct RichKey {
    /// The text.
    pub text: String,
    /// How it is set.
    pub style: TextStyle,
    /// What it is filled with.
    pub fill: Paint,
    /// The style sheet.
    pub sheet: u64,
    /// The outline that was folded onto the sheet.
    pub outline: Option<(Color, Num)>,
    /// The colours that the sheet names.
    pub palette: u64,
    /// The images that it may show; none where it shows none.
    pub images: Option<u64>,
    /// Pixels to the inch.
    pub dpi: Num,
    /// How wide its lines may be.
    pub width: RichWidth,
    /// Where its lines are placed.
    pub align: HAlign,
}

/// Whether two font families are one.
pub open spec fn same_family(a: Option<String>, b: Option<String>) -> bool {
    match (a, b) {
        (Some(s), Some(t)) => s@ == t@,
        (None, None) => true,
        _ => false,
    }
}

/// Whether two ways to set a label are one.
pub open spec fn same_style(a: TextStyle, b: TextStyle) -> bool {
    &&& a.size_pt == b.size_pt
    &&& a.weight == b.weight
    &&& a.italic == b.italic
    &&& a.spacing == b.spacing
    &&& a.underline == b.underline
    &&& a.strikethrough == b.strikethrough
    &&& same_family(a.family, b.family)
}

/// Whether two texts have one shape.
pub open spec fn same_shape(a: RichKey, b: RichKey) -> bool {
    &&& a.text@ == b.text@
    &&& same_style(a.style, b.style)
    &&& a.fill == b.fill
    &&& a.sheet == b.sheet
    &&& a.outline == b.outline
    &&& a.palette == b.palette
    &&& a.images == b.images
    &&& a.dpi == b.dpi
    &&& a.width == b.width
    &&& a.align == b.align
}

fn is_same_style(a: &TextStyle, b: &TextStyle) -> (r: bool)
    ensures
        r == same_style(*a, *b),
{
    let family = match (&a.family, &b.family) {
        (Some(s), Some(t)) => same_name(s.as_str(), t.as_str()),
        (None, None) => true,
        _ => false,
    };
    a.size_pt == b.size_pt && a.weight == b.weight && a.italic == b.italic && a.spacing == b.spacing
        && a.underline == b.underline && a.strikethrough == b.strikethrough && family
}

impl RichKey {
    fn is_same_shape(&self, other: &RichKey) -> (r: bool)
        ensures
            r == same_shape(*self, *other),
    {
        let outline = match (self.outline, other.outline) {
            (Some((c, w)), Some((d, v))) => c == d && w == v,
            (None, None) => true,
            _ => false,
        };
        let images = match (self.images, other.images) {
            (Some(a), Some(b)) => a == b,
            (None, None) => true,
            _ => false,
        };
        same_name(self.text.as_str(), other.text.as_str()) && is_same_style(
            &self.style,
            &other.style,
        ) && self.fill == other.fill && self.sheet == other.sheet && outline && images
            && self.palette == other.palette && self.dpi == other.dpi && self.width == other.width && self.align
            == other.align
    }
}

/// The texts that are shaped already. The shape of the text at place `i` is kept
/// by the painter, at its own place `i`.
pub struct RichShapeCache {
    /// The texts.
    pub keys: Vec<RichKey>,
}

/// Whether `slot` is the place of a text's shape: the one where it is kept
/// already, else a new one, and the text is still to be shaped.
pub open spec fn shapes(
    before: RichShapeCache,
    after: RichShapeCache,
    key: RichKey,
    slot: usize,
    fresh: bool,
) -> bool {
    if before.lacks(key) {
        &&& fresh
        &&& slot == before.keys@.len()
        &&& after.keys@ == before.keys@.push(key)
    } else {
        &&& !fresh
        &&& before.keeps(key, slot as int)
        &&& after == before
    }
}

impl RichShapeCache {
    /// Whether the shape of `key` is kept, the first of them at place `i`.
    pub open spec fn keeps(self, key: RichKey, i: int) -> bool {
        &&& 0 <= i < self.keys@.len()
        &&& same_shape(self.keys@[i], key)
        &&& forall|j: int| 0 <= j < i ==> !same_shape(#[trigger] self.keys@[j], key)
    }

    /// Whether the shape of `key` is not kept.
    pub open spec fn lacks(self, key: RichKey) -> bool {
        forall|j: int| 0 <= j < self.keys@.len() ==> !same_shape(#[trigger] self.keys@[j], key)
    }

    /// Nothing is shaped yet.
    pub fn new() -> (r: RichShapeCache)
        ensures
            r.keys@.len() == 0,
    {
        RichShapeCache { keys: Vec::new() }
    }

    /// How many shapes are kept.
    pub fn len(&self) -> (r: usize)
        ensures
            r == self.keys@.len(),
    {
        self.keys.len()
    }

    /// Whether no shape is kept.
    pub fn is_empty(&self) -> (r: bool)
        ensures
            r == (self.keys@.len() == 0),
    {
        self.keys.len() == 0
    }

    /// Forgets every shape.
    pub fn clear(&mut self)
        ensures
            final(self).keys@.len() == 0,
    {
        self.keys = Vec::new();
    }

    /// The place of a text's shape, and whether the text has still to be
    /// shaped.
    pub fn get_or_shape(&mut self, key: RichKey) -> (r: (usize, bool))
        ensures
            shapes(*old(self), *final(self), key, r.0, r.1),
    {
        let mut i: usize = 0;
        while i < self.keys.len()
            invariant
                i <= self.keys@.len(),
                *self == *old(self),
                forall|j: int| 0 <= j < i ==> !same_shape(#[trigger] self.keys@[j], key),
            decreases self.keys@.len() - i,
        {
            if self.keys[i].is_same_shape(&key) {
                assert(same_shape(self.keys@[i as int], key));
                return (i, false);
            }
            i = i + 1;
        }
        self.keys.push(key);
        (i, true)
    }
}

/// A request for a shape: the text, the place of its shape, and whether the text
/// had still to be shaped.
pub type ShapeCall = (RichKey, usize, bool);

/// Whether each of these requests leads from one of the states to the next.
pub open spec fn are_shape_calls(states: Seq<RichShapeCache>, calls: Seq<ShapeCall>) -> bool {
    &&& states.len() == calls.len() + 1
    &&& forall|k: int|
        0 <= k < calls.len() ==> shapes(
            states[k],
            states[k + 1],
            (#[trigger] calls[k]).0,
            calls[k].1,
            calls[k].2,
        )
}

proof fn shapes_stay(states: Seq<RichShapeCache>, calls: Seq<ShapeCall>, j: int, k: int)
    requires
        are_shape_calls(states, calls),
        0 <= j <= k < states.len(),
    ensures
        states[j].keys@.len() <= states[k].keys@.len(),
        forall|i: int|
            0 <= i < states[j].keys@.len() ==> #[trigger] states[k].keys@[i] == states[j].keys@[i],
    decreases k,
{
    if j < k {
        shapes_stay(states, calls, j, k - 1);
        let c = calls[k - 1];
        assert(shapes(states[k - 1], states[k - 1 + 1], c.0, c.1, c.2));
    }
}

/// A text that was shaped once is found again, whatever was asked for in
/// between: of any number of requests, any two for one shape give one place, and
/// the second time nothing has to be shaped.
pub proof fn shapes_are_kept(
    states: Seq<RichShapeCache>,
    calls: Seq<ShapeCall>,
    j: int,
    k: int,
)
    requires
        are_shape_calls(states, calls),
        0 <= j < k < calls.len(),
        same_shape(calls[j].0, calls[k].0),
    ensures
        calls[k].1 == calls[j].1,
        !calls[k].2,
        states[k + 1] == states[k],
{
    let key = calls[j].0;
    let again = calls[k].0;
    let before = states[j];
    let between = states[j + 1];
    let later = states[k];
    let at = calls[j].1 as int;
    assert(shapes(before, between, key, calls[j].1, calls[j].2));
    assert(shapes(later, states[k + 1], again, calls[k].1, calls[k].2));
    shapes_stay(states, calls, j, j + 1);
    shapes_stay(states, calls, j + 1, k);
    assert(same_shape(between.keys@[at], key));
    assert(later.keys@[at] == between.keys@[at]);
    assert(same_shape(later.keys@[at], again));
    assert forall|i: int| 0 <= i < at implies !same_shape(#[trigger] later.keys@[i], again) by {
        assert(later.keys@[i] == between.keys@[i]);
        assert(between.keys@[i] == before.keys@[i]);
        assert(!same_shape(before.keys@[i], key));
    }
    let found = calls[k].1 as int;
    if found < at {
        assert(!same_shape(later.keys@[found], again));
    }
    if at < found {
        assert(!same_shape(later.keys@[at], again));
    }
}

/// Where a turn moves a point.
pub open spec fn landing(t: Xform, x: real, y: real, env: Env) -> (real, real) {
    match t {
        Xform::Identity => (x, y),
        Xform::RotateAbout { angle, at } => {
            let s = (env.sin)(value(angle, env));
            let c = (env.cos)(value(angle, env));
            let ax = value(at.x, env);
            let ay = value(at.y, env);
            (ax + c * (x - ax) - s * (y - ay), ay + s * (x - ax) + c * (y - ay))
        },
    }
}

/// A turn in panel space, for text that is first turned and then moved to `at`.
pub open spec fn in_layout_space(t: Xform, at: Point) -> Xform {
    match t {
        Xform::Identity => Xform::Identity,
        Xform::RotateAbout { angle, at: pivot } => Xform::RotateAbout {
            angle,
            at: Point { x: e_sub(pivot.x, at.x), y: e_sub(pivot.y, at.y) },
        },
    }
}

/// Turns a transform in panel space into one for text that is first turned and
/// then moved to `at`. No turn at all stays none.
pub fn panel_space_transform(t: &Xform, at: &Point) -> (r: Xform)
    ensures
        r == in_layout_space(*t, *at),
{
    match t {
        Xform::Identity => Xform::Identity,
        Xform::RotateAbout { angle, at: pivot } => Xform::RotateAbout {
            angle: angle.again(),
            at: Point {
                x: pivot.x.again().minus(at.x.again()),
                y: pivot.y.again().minus(at.y.again()),
            },
        },
    }
}

/// Text that is turned in its own space and then moved lands where moving it
/// first and turning it in panel space would put it.
pub proof fn layout_space_lands_alike(t: Xform, at: Point, x: real, y: real, env: Env)
    ensures
        ({
            let local = landing(in_layout_space(t, at), x, y, env);
            let panel = landing(t, x + value(at.x, env), y + value(at.y, env), env);
            &&& local.0 + value(at.x, env) == panel.0
            &&& local.1 + value(at.y, env) == panel.1
        }),
{
    match t {
        Xform::Identity => {},
        Xform::RotateAbout { angle, at: pivot } => {
            let s = (env.sin)(value(angle, env));
            let c = (env.cos)(value(angle, env));
            let px = value(pivot.x, env);
            let py = value(pivot.y, env);
            let dx = value(at.x, env);
            let dy = value(at.y, env);
            assert(value(e_sub(pivot.x, at.x), env) == px - dx);
            assert(value(e_sub(pivot.y, at.y), env) == py - dy);
            assert(x - (px - dx) == (x + dx) - px);
            assert(y - (py - dy) == (y + dy) - py);
        },
    }
}

} // verus!
