//! What a channel holds in a row, once its scale has had its say.

use std::sync::Arc;
use vstd::prelude::*;

use crate::channel::{Channel, Channels};
use crate::expr::{e_add, e_mul, Expr};
use crate::names::{same_name, NameMap};
use crate::num::Num;
use crate::pick::PickId;
use crate::scene::{Cap, HAlign, Join, Paint};
use crate::value::{number_in, Color, LinetypeStep, Value};

verus! {

/// Where a scale puts a value: the centre of its place, and how much room the
/// place takes. On a continuous scale it takes none.
#[derive(Clone, Copy, Debug, PartialEq, Eq, Structural)]
pub struct BandPosition {
    /// The centre, as a fraction of the panel.
    pub center: Num,
    /// The room, as a fraction of the panel.
    pub band: Num,
}

/// What the bound scales make of the channels, row by row. A channel that is
/// not listed has no scale.
pub struct ScaleOutputs {
    /// The outputs of the scales that give values.
    pub values: NameMap<Arc<Vec<Value>>>,
    /// The outputs of the scales that give positions.
    pub positions: NameMap<Arc<Vec<BandPosition>>>,
}

/// Channels, and what their scales make of them.
pub struct Bound<'a> {
    /// The channels.
    pub channels: &'a Channels,
    /// What their scales make of them.
    pub scales: &'a ScaleOutputs,
}

/// Channels, and what their scales make of them.
pub struct Source {
    /// The channels.
    pub channels: Map<Seq<char>, Channel>,
    /// The outputs of the scales that give values.
    pub values: Map<Seq<char>, Arc<Vec<Value>>>,
    /// The outputs of the scales that give positions.
    pub positions: Map<Seq<char>, Arc<Vec<BandPosition>>>,
}

impl<'a> View for Bound<'a> {
    type V = Source;

    open spec fn view(&self) -> Source {
        Source {
            channels: self.channels@,
            values: self.scales.values@,
            positions: self.scales.positions@,
        }
    }
}

/// The pattern of an undefined number.
pub const UNDEFINED_BITS: u64 = 0x7FF8_0000_0000_0000;

/// A cap by its name.
pub open spec fn cap_named(s: Option<String>, default: Cap) -> Cap {
    match s {
        Some(t) => if t@ == "butt"@ {
            Cap::Butt
        } else if t@ == "round"@ {
            Cap::Round
        } else if t@ == "square"@ {
            Cap::Square
        } else {
            default
        },
        None => default,
    }
}

/// A join by its name.
pub open spec fn join_named(s: Option<String>, default: Join) -> Join {
    match s {
        Some(t) => if t@ == "miter"@ {
            Join::Miter
        } else if t@ == "round"@ {
            Join::Round
        } else if t@ == "bevel"@ {
            Join::Bevel
        } else {
            default
        },
        None => default,
    }
}

/// A line placement by its name. What has no name is placed at the start.
pub open spec fn align_named(s: Option<String>) -> HAlign {
    match s {
        Some(t) => if t@ == "center"@ || t@ == "centre"@ || t@ == "middle"@ {
            HAlign::Center
        } else if t@ == "end"@ {
            HAlign::End
        } else if t@ == "justify"@ || t@ == "justified"@ {
            HAlign::Justify
        } else {
            HAlign::Start
        },
        None => HAlign::Start,
    }
}

/// Whether a value asks for an italic font.
pub open spec fn italic_in(v: Option<Value>) -> bool {
    match v {
        Some(Value::Bool(b)) => b,
        Some(Value::String(s)) => s@ == "italic"@ || s@ == "oblique"@,
        _ => false,
    }
}

/// The pick id that a number stands for: nought blocks hits, and what is no id
/// lets them through.
pub open spec fn pick_for(n: Option<Num>) -> PickId {
    match n {
        Some(v) => if v.is_pick_index(0) {
            PickId::Block
        } else if exists|k: nat| v.is_pick_index(k) {
            PickId::Id((choose|k: nat| v.is_pick_index(k)) as u32)
        } else {
            PickId::Skip
        },
        None => PickId::Skip,
    }
}

/// A number that is an id other than nought picks as that id.
pub proof fn ids_pick_as_themselves(v: Num, k: nat)
    requires
        v.is_pick_index(k),
    ensures
        k > 0 ==> pick_for(Some(v)) == PickId::Id(k as u32),
        k == 0 ==> pick_for(Some(v)) == PickId::Block,
{
    let c = choose|c: nat| v.is_pick_index(c);
    assert(v.is_pick_index(c));
    assert(c as real == k as real);
    assert(c == k);
}

impl Source {
    /// What a channel holds in row `i`. A raw channel is taken as it is, and
    /// so is one without a scale.
    pub open spec fn value_at(self, name: Seq<char>, i: int) -> Option<Value> {
        if !self.channels.contains_key(name) {
            None
        } else if self.channels[name].bypasses_scale() || !self.values.contains_key(name) {
            Some(self.channels[name].raw_at(i))
        } else if 0 <= i < self.values[name]@.len() {
            Some(self.values[name]@[i])
        } else {
            Some(Value::Null)
        }
    }

    /// The number in row `i`.
    pub open spec fn number_at(self, name: Seq<char>, i: int) -> Option<Num> {
        match self.value_at(name, i) {
            Some(v) => number_in(v),
            None => None,
        }
    }

    /// The number in row `i`, or `default`.
    pub open spec fn number_or(self, name: Seq<char>, i: int, default: Num) -> Num {
        match self.number_at(name, i) {
            Some(n) => n,
            None => default,
        }
    }

    /// The colour in row `i`.
    pub open spec fn color_at(self, name: Seq<char>, i: int) -> Option<Color> {
        match self.value_at(name, i) {
            Some(Value::Color(c)) => Some(c),
            _ => None,
        }
    }

    /// The colour in row `i`, or the theme's.
    pub open spec fn color_or(self, name: Seq<char>, i: int, theme: Option<Color>) -> Option<Color> {
        match self.color_at(name, i) {
            Some(c) => Some(c),
            None => theme,
        }
    }

    /// The string in row `i`.
    pub open spec fn string_at(self, name: Seq<char>, i: int) -> Option<String> {
        match self.value_at(name, i) {
            Some(Value::String(s)) => Some(s),
            _ => None,
        }
    }

    /// The truth value in row `i`, or `default`.
    pub open spec fn bool_or(self, name: Seq<char>, i: int, default: bool) -> bool {
        match self.value_at(name, i) {
            Some(Value::Bool(b)) => b,
            _ => default,
        }
    }

    /// The colour in row `i` with the opacity in row `i`.
    pub open spec fn paint_of(
        self,
        color: Option<Color>,
        opacity: Seq<char>,
        i: int,
    ) -> Option<Paint> {
        match color {
            Some(c) => Some(Paint { color: c, opacity: self.number_at(opacity, i) }),
            None => None,
        }
    }

    /// Whether a channel can place rows: it varies by row.
    pub open spec fn places_rows(self, name: Seq<char>) -> bool {
        self.channels.contains_key(name) && self.channels[name].column() is Some
    }

    /// Whether a channel is placed by a scale.
    pub open spec fn placed_by_scale(self, name: Seq<char>) -> bool {
        !self.channels[name].bypasses_scale() && self.positions.contains_key(name)
    }

    /// Where a scale puts row `i` of a channel.
    pub open spec fn band_position(self, name: Seq<char>, i: int) -> BandPosition {
        if 0 <= i < self.positions[name]@.len() {
            self.positions[name]@[i]
        } else {
            BandPosition { center: Num { bits: UNDEFINED_BITS }, band: Num { bits: 0 } }
        }
    }

    /// Where row `i` lies, as a fraction of the panel: the centre of its place
    /// and a fraction of the room it takes, or without a scale the number
    /// itself.
    pub open spec fn position(self, name: Seq<char>, i: int, band: Num) -> Expr {
        if self.placed_by_scale(name) {
            let p = self.band_position(name, i);
            e_add(Expr::Lit(p.center), e_mul(Expr::Lit(band), Expr::Lit(p.band)))
        } else {
            Expr::Lit(
                match number_in(self.channels[name].raw_at(i)) {
                    Some(n) => n,
                    None => Num { bits: UNDEFINED_BITS },
                },
            )
        }
    }

    /// How much room the place of row `i` takes, as a fraction of the panel.
    pub open spec fn band_width(self, name: Seq<char>, i: int) -> Num {
        if self.placed_by_scale(name) {
            self.band_position(name, i).band
        } else {
            Num { bits: 0 }
        }
    }

    /// The line pattern in row `i`; none for a solid line.
    pub open spec fn linetype_at(self, name: Seq<char>, i: int) -> Option<Arc<Vec<LinetypeStep>>> {
        match self.value_at(name, i) {
            Some(Value::Linetype(l)) => Some(l),
            _ => None,
        }
    }

    /// Whether two sources differ in no channel but one.
    pub open spec fn same_but(self, other: Source, name: Seq<char>) -> bool {
        &&& self.channels.remove(name) == other.channels.remove(name)
        &&& self.values.remove(name) == other.values.remove(name)
        &&& self.positions.remove(name) == other.positions.remove(name)
    }

    /// Whether two sources hold the same in a channel, in every row.
    pub open spec fn same_in(self, other: Source, name: Seq<char>) -> bool {
        &&& self.places_rows(name) == other.places_rows(name)
        &&& forall|i: int| #[trigger] self.value_at(name, i) == other.value_at(name, i)
        &&& forall|i: int, band: Num| #[trigger]
            self.position(name, i, band) == other.position(name, i, band)
        &&& forall|i: int| #[trigger] self.band_width(name, i) == other.band_width(name, i)
    }
}

/// Sources that differ in one channel at most hold the same in every other.
pub proof fn other_channels_agree(a: Source, b: Source, name: Seq<char>, other: Seq<char>)
    requires
        a.same_but(b, name),
        other != name,
    ensures
        a.same_in(b, other),
{
    assert(a.channels.remove(name)[other] == a.channels[other]);
    assert(b.channels.remove(name)[other] == b.channels[other]);
    assert(a.channels.remove(name).contains_key(other) == a.channels.contains_key(other));
    assert(b.channels.remove(name).contains_key(other) == b.channels.contains_key(other));
    assert(a.values.remove(name)[other] == a.values[other]);
    assert(b.values.remove(name)[other] == b.values[other]);
    assert(a.values.remove(name).contains_key(other) == a.values.contains_key(other));
    assert(b.values.remove(name).contains_key(other) == b.values.contains_key(other));
    assert(a.positions.remove(name)[other] == a.positions[other]);
    assert(b.positions.remove(name)[other] == b.positions[other]);
    assert(a.positions.remove(name).contains_key(other) == a.positions.contains_key(other));
    assert(b.positions.remove(name).contains_key(other) == b.positions.contains_key(other));
}

impl ScaleOutputs {
    /// No scale is bound.
    pub fn new() -> (r: ScaleOutputs)
        ensures
            r.values@ == Map::<Seq<char>, Arc<Vec<Value>>>::empty(),
            r.positions@ == Map::<Seq<char>, Arc<Vec<BandPosition>>>::empty(),
    {
        ScaleOutputs { values: NameMap::new(), positions: NameMap::new() }
    }

    /// Binds a channel to a scale that gives values.
    pub fn bind_values(&mut self, name: String, outputs: Arc<Vec<Value>>)
        ensures
            final(self).values@ == old(self).values@.insert(name@, outputs),
            final(self).positions@ == old(self).positions@,
    {
        self.values.insert(name, outputs);
    }

    /// Binds a channel to a scale that gives positions.
    pub fn bind_positions(&mut self, name: String, outputs: Arc<Vec<BandPosition>>)
        ensures
            final(self).values@ == old(self).values@,
            final(self).positions@ == old(self).positions@.insert(name@, outputs),
    {
        self.positions.insert(name, outputs);
    }
}

impl<'a> Bound<'a> {
    /// What a channel holds in row `i`.
    pub fn value_at(&self, name: &str, i: usize) -> (r: Option<Value>)
        ensures
            r == self@.value_at(name@, i as int),
    {
        match self.channels.get(name) {
            None => None,
            Some(ch) => {
                if ch.is_raw() {
                    return Some(ch.raw(i));
                }
                match self.scales.values.get(name) {
                    None => Some(ch.raw(i)),
                    Some(out) => if i < out.len() {
                        Some(out[i].copied())
                    } else {
                        Some(Value::Null)
                    },
                }
            },
        }
    }

    /// The number in row `i`.
    pub fn number_at(&self, name: &str, i: usize) -> (r: Option<Num>)
        ensures
            r == self@.number_at(name@, i as int),
    {
        match self.value_at(name, i) {
            Some(v) => v.as_number(),
            None => None,
        }
    }

    /// The number in row `i`, or `default`.
    pub fn number_or(&self, name: &str, i: usize, default: Num) -> (r: Num)
        ensures
            r == self@.number_or(name@, i as int, default),
    {
        match self.number_at(name, i) {
            Some(n) => n,
            None => default,
        }
    }

    /// The colour in row `i`.
    pub fn color_at(&self, name: &str, i: usize) -> (r: Option<Color>)
        ensures
            r == self@.color_at(name@, i as int),
    {
        match self.value_at(name, i) {
            Some(Value::Color(c)) => Some(c),
            _ => None,
        }
    }

    /// The colour in row `i`, or the theme's.
    pub fn color_or(&self, name: &str, i: usize, theme: Option<Color>) -> (r: Option<Color>)
        ensures
            r == self@.color_or(name@, i as int, theme),
    {
        match self.color_at(name, i) {
            Some(c) => Some(c),
            None => theme,
        }
    }

    /// A colour with the opacity in row `i`.
    pub fn paint_of(&self, color: Option<Color>, opacity: &str, i: usize) -> (r: Option<Paint>)
        ensures
            r == self@.paint_of(color, opacity@, i as int),
    {
        match color {
            Some(c) => Some(Paint { color: c, opacity: self.number_at(opacity, i) }),
            None => None,
        }
    }

    /// The string in row `i`.
    pub fn string_at(&self, name: &str, i: usize) -> (r: Option<String>)
        ensures
            r == self@.string_at(name@, i as int),
    {
        match self.value_at(name, i) {
            Some(Value::String(s)) => Some(s),
            _ => None,
        }
    }

    /// The truth value in row `i`, or `default`.
    pub fn bool_or(&self, name: &str, i: usize, default: bool) -> (r: bool)
        ensures
            r == self@.bool_or(name@, i as int, default),
    {
        match self.value_at(name, i) {
            Some(Value::Bool(b)) => b,
            _ => default,
        }
    }

    /// The cap in row `i`, or `default`.
    pub fn cap_or(&self, name: &str, i: usize, default: Cap) -> (r: Cap)
        ensures
            r == cap_named(self@.string_at(name@, i as int), default),
    {
        match self.string_at(name, i) {
            Some(s) => if same_name(s.as_str(), "butt") {
                Cap::Butt
            } else if same_name(s.as_str(), "round") {
                Cap::Round
            } else if same_name(s.as_str(), "square") {
                Cap::Square
            } else {
                default
            },
            None => default,
        }
    }

    /// The join in row `i`, or `default`.
    pub fn join_or(&self, name: &str, i: usize, default: Join) -> (r: Join)
        ensures
            r == join_named(self@.string_at(name@, i as int), default),
    {
        match self.string_at(name, i) {
            Some(s) => if same_name(s.as_str(), "miter") {
                Join::Miter
            } else if same_name(s.as_str(), "round") {
                Join::Round
            } else if same_name(s.as_str(), "bevel") {
                Join::Bevel
            } else {
                default
            },
            None => default,
        }
    }

    /// The line placement in row `i`.
    pub fn align_at(&self, name: &str, i: usize) -> (r: HAlign)
        ensures
            r == align_named(self@.string_at(name@, i as int)),
    {
        match self.string_at(name, i) {
            Some(s) => {
                let t = s.as_str();
                if same_name(t, "center") || same_name(t, "centre") || same_name(t, "middle") {
                    HAlign::Center
                } else if same_name(t, "end") {
                    HAlign::End
                } else if same_name(t, "justify") || same_name(t, "justified") {
                    HAlign::Justify
                } else {
                    HAlign::Start
                }
            },
            None => HAlign::Start,
        }
    }

    /// Whether row `i` asks for an italic font.
    pub fn italic_at(&self, name: &str, i: usize) -> (r: bool)
        ensures
            r == italic_in(self@.value_at(name@, i as int)),
    {
        match self.value_at(name, i) {
            Some(Value::Bool(b)) => b,
            Some(Value::String(s)) => same_name(s.as_str(), "italic") || same_name(
                s.as_str(),
                "oblique",
            ),
            _ => false,
        }
    }

    /// The line pattern in row `i`; none for a solid line.
    pub fn linetype_at(&self, name: &str, i: usize) -> (r: Option<Arc<Vec<LinetypeStep>>>)
        ensures
            r == self@.linetype_at(name@, i as int),
    {
        match self.value_at(name, i) {
            Some(Value::Linetype(l)) => Some(l),
            _ => None,
        }
    }

    /// What row `i` hit-tests as.
    pub fn pick_at(&self, name: &str, i: usize) -> (r: PickId)
        ensures
            r == pick_for(self@.number_at(name@, i as int)),
    {
        match self.number_at(name, i) {
            Some(n) => match n.as_pick_index() {
                Some(k) => {
                    proof {
                        ids_pick_as_themselves(n, k as nat);
                    }
                    if k == 0 {
                        PickId::Block
                    } else {
                        PickId::Id(k)
                    }
                },
                None => PickId::Skip,
            },
            None => PickId::Skip,
        }
    }

    /// Whether a channel can place rows.
    pub fn places_rows(&self, name: &str) -> (r: bool)
        ensures
            r == self@.places_rows(name@),
    {
        match self.channels.get(name) {
            Some(ch) => ch.is_data(),
            None => false,
        }
    }

    fn placement(&self, name: &str, i: usize) -> (r: Option<BandPosition>)
        requires
            self@.channels.contains_key(name@),
        ensures
            r == (if self@.placed_by_scale(name@) {
                Some(self@.band_position(name@, i as int))
            } else {
                None
            }),
    {
        match self.channels.get(name) {
            Some(Channel::Data(_)) | Some(Channel::Constant(_)) => match self.scales.positions.get(
                name,
            ) {
                Some(out) => if i < out.len() {
                    Some(out[i])
                } else {
                    Some(
                        BandPosition {
                            center: Num { bits: UNDEFINED_BITS },
                            band: Num { bits: 0 },
                        },
                    )
                },
                None => None,
            },
            _ => None,
        }
    }

    /// Where row `i` lies, as a fraction of the panel.
    pub fn position(&self, name: &str, i: usize, band: Num) -> (r: Expr)
        requires
            self@.channels.contains_key(name@),
        ensures
            r == self@.position(name@, i as int, band),
    {
        match self.placement(name, i) {
            Some(p) => Expr::Lit(p.center).plus(Expr::Lit(band).times(Expr::Lit(p.band))),
            None => match self.channels.get(name) {
                Some(ch) => match ch.raw(i).as_number() {
                    Some(n) => Expr::Lit(n),
                    None => Expr::Lit(Num { bits: UNDEFINED_BITS }),
                },
                None => Expr::Lit(Num { bits: UNDEFINED_BITS }),
            },
        }
    }

    /// How much room the place of row `i` takes, as a fraction of the panel.
    pub fn band_width(&self, name: &str, i: usize) -> (r: Num)
        requires
            self@.channels.contains_key(name@),
        ensures
            r == self@.band_width(name@, i as int),
    {
        match self.placement(name, i) {
            Some(p) => p.band,
            None => Num { bits: 0 },
        }
    }
}

} // verus!
