//! Channels: what a geom draws from, and the keys of its rows.

use vstd::prelude::*;

use crate::names::{distinct_names, entry_map, entry_prefix, NameMap};
use crate::value::{DataColumn, Value};

verus! {

/// One channel of a geom. A raw channel bypasses its scale.
#[derive(Debug)]
pub enum Channel {
    /// One value for every row, mapped by the channel's scale.
    Constant(Value),
    /// A value for each row, mapped by the channel's scale.
    Data(DataColumn),
    /// One value for every row, taken as it is.
    RawConstant(Value),
    /// A value for each row, taken as it is.
    RawData(DataColumn),
}

/// The channels of a geom by name.
pub type Channels = NameMap<Channel>;

impl Channel {
    /// The column of a channel that varies by row.
    pub open spec fn column(self) -> Option<DataColumn> {
        match self {
            Channel::Data(c) => Some(c),
            Channel::RawData(c) => Some(c),
            _ => None,
        }
    }

    /// What the channel holds in row `i`, before any scale.
    pub open spec fn raw_at(self, i: int) -> Value {
        match self {
            Channel::Constant(v) => v,
            Channel::Data(c) => c.cell(i),
            Channel::RawConstant(v) => v,
            Channel::RawData(c) => c.cell(i),
        }
    }

    /// Whether the channel bypasses its scale.
    pub open spec fn bypasses_scale(self) -> bool {
        self is RawConstant || self is RawData
    }

    /// Whether `self` is `other` with the cells of its column taken out.
    pub open spec fn emptied_from(self, other: Channel) -> bool {
        match (self, other) {
            (Channel::Constant(a), Channel::Constant(b)) => a == b,
            (Channel::RawConstant(a), Channel::RawConstant(b)) => a == b,
            (Channel::Data(a), Channel::Data(b)) => a.count() == 0 && a.same_kind(b),
            (Channel::RawData(a), Channel::RawData(b)) => a.count() == 0 && a.same_kind(b),
            _ => false,
        }
    }

    /// The length of the channel's column, if it has one.
    pub fn data_len(&self) -> (r: Option<usize>)
        ensures
            match r {
                Some(n) => self.column() is Some && n == self.column()->0.count(),
                None => self.column() is None,
            },
    {
        match self {
            Channel::Data(c) => Some(c.len()),
            Channel::RawData(c) => Some(c.len()),
            _ => None,
        }
    }

    /// Whether the channel varies by row.
    pub fn is_data(&self) -> (r: bool)
        ensures
            r == (self.column() is Some),
    {
        match self {
            Channel::Data(_) => true,
            Channel::RawData(_) => true,
            _ => false,
        }
    }

    /// What the channel holds in row `i`, before any scale.
    pub fn raw(&self, i: usize) -> (r: Value)
        ensures
            r == self.raw_at(i as int),
    {
        match self {
            Channel::Constant(v) => v.copied(),
            Channel::Data(c) => c.get(i),
            Channel::RawConstant(v) => v.copied(),
            Channel::RawData(c) => c.get(i),
        }
    }

    /// Whether the channel bypasses its scale.
    pub fn is_raw(&self) -> (r: bool)
        ensures
            r == self.bypasses_scale(),
    {
        match self {
            Channel::RawConstant(_) => true,
            Channel::RawData(_) => true,
            _ => false,
        }
    }

    /// The same channel again, sharing its cells.
    pub fn shared(&self) -> (r: Channel)
        ensures
            r == *self,
    {
        match self {
            Channel::Constant(v) => Channel::Constant(v.copied()),
            Channel::Data(c) => Channel::Data(c.shared()),
            Channel::RawConstant(v) => Channel::RawConstant(v.copied()),
            Channel::RawData(c) => Channel::RawData(c.shared()),
        }
    }

    /// The channel with the cells of its column taken out.
    pub fn emptied(&self) -> (r: Channel)
        ensures
            r.emptied_from(*self),
    {
        match self {
            Channel::Constant(v) => Channel::Constant(v.copied()),
            Channel::Data(c) => Channel::Data(c.empty_like()),
            Channel::RawConstant(v) => Channel::RawConstant(v.copied()),
            Channel::RawData(c) => Channel::RawData(c.empty_like()),
        }
    }
}

/// The same channels again, sharing their cells.
pub fn shared_channels(channels: &Channels) -> (r: Channels)
    ensures
        r@ == channels@,
{
    let n: usize = channels.len();
    let mut r: Channels = NameMap::new();
    let ghost s = channels.entry_seq();
    let mut i: usize = 0;
    proof {
        assert(s.take(0) =~= Seq::<(String, Channel)>::empty());
        assert(entry_map(s.take(0)) =~= Map::<Seq<char>, Channel>::empty());
    }
    while i < n
        invariant
            i <= n,
            n == s.len(),
            s == channels.entry_seq(),
            distinct_names(s),
            r@ == entry_map(s.take(i as int)),
        decreases n - i,
    {
        proof {
            entry_prefix(s, i as int);
        }
        r.insert(channels.name_at(i).clone(), channels.value_at(i).shared());
        i = i + 1;
    }
    assert(s.take(n as int) =~= s);
    r
}

/// Whether `m` is `channels` with the cells of every column taken out.
pub open spec fn emptied_channels(
    m: Map<Seq<char>, Channel>,
    channels: Map<Seq<char>, Channel>,
) -> bool {
    &&& m.dom() == channels.dom()
    &&& forall|k: Seq<char>|
        #![trigger m[k]]
        channels.contains_key(k) ==> m[k].emptied_from(channels[k])
}

/// The channels with the cells of every column taken out.
pub fn empty_channels_like(channels: &Channels) -> (r: Channels)
    ensures
        emptied_channels(r@, channels@),
{
    let n: usize = channels.len();
    let mut r: Channels = NameMap::new();
    let ghost s = channels.entry_seq();
    let mut i: usize = 0;
    proof {
        assert(s.take(0) =~= Seq::<(String, Channel)>::empty());
        assert(entry_map(s.take(0)) =~= Map::<Seq<char>, Channel>::empty());
    }
    while i < n
        invariant
            i <= n,
            n == s.len(),
            s == channels.entry_seq(),
            distinct_names(s),
            emptied_channels(r@, entry_map(s.take(i as int))),
        decreases n - i,
    {
        proof {
            entry_prefix(s, i as int);
        }
        r.insert(channels.name_at(i).clone(), channels.value_at(i).emptied());
        i = i + 1;
        assert(r@.dom() =~= entry_map(s.take(i as int)).dom());
    }
    assert(s.take(n as int) =~= s);
    r
}

/// What kind of output a channel's scale has to give.
#[derive(Clone, Copy, Debug, PartialEq, Eq, Structural)]
pub enum ExpectedOutput {
    /// Numbers.
    Numbers,
    /// Colours.
    Colors,
    /// Strings.
    Strings,
    /// Line patterns.
    Linetypes,
    /// Anything.
    Any,
}

/// One entry of a geom's catalog: a channel it reads, and the output that the
/// channel's scale has to give.
pub type CatalogEntry = (&'static str, ExpectedOutput);

/// A channel that a geom declares.
#[derive(Clone, Copy, Debug)]
pub struct ChannelDecl {
    /// The channel's name.
    pub name: &'static str,
    /// Whether the channel varies by row.
    pub data_bound: bool,
    /// What kind of output the channel's scale has to give.
    pub expected_output: ExpectedOutput,
}

/// The keys of a geom's rows.
#[derive(Debug)]
pub enum Keys {
    /// Each row is known by its place; this many rows.
    Positional(usize),
    /// Each row is known by its cell.
    Explicit(DataColumn),
}

impl Keys {
    /// How many rows there are.
    pub open spec fn count(self) -> nat {
        match self {
            Keys::Positional(n) => n as nat,
            Keys::Explicit(c) => c.count(),
        }
    }

    /// Whether `self` is the keys of no rows, of the kind of `other`.
    pub open spec fn emptied_from(self, other: Keys) -> bool {
        match (self, other) {
            (Keys::Positional(n), Keys::Positional(_)) => n == 0,
            (Keys::Explicit(a), Keys::Explicit(b)) => a.count() == 0 && a.same_kind(b),
            _ => false,
        }
    }

    /// How many rows there are.
    pub fn len(&self) -> (r: usize)
        ensures
            r == self.count(),
    {
        match self {
            Keys::Positional(n) => *n,
            Keys::Explicit(c) => c.len(),
        }
    }

    /// Whether there is no row.
    pub fn is_empty(&self) -> (r: bool)
        ensures
            r == (self.count() == 0),
    {
        self.len() == 0
    }

    /// Whether the rows are known by the cells of a column.
    pub fn is_explicit(&self) -> (r: bool)
        ensures
            r == (*self is Explicit),
    {
        match self {
            Keys::Positional(_) => false,
            Keys::Explicit(_) => true,
        }
    }

    /// The same keys again, sharing their cells.
    pub fn shared(&self) -> (r: Keys)
        ensures
            r == *self,
    {
        match self {
            Keys::Positional(n) => Keys::Positional(*n),
            Keys::Explicit(c) => Keys::Explicit(c.shared()),
        }
    }

    /// The keys of no rows, of the same kind.
    pub fn empty_like(&self) -> (r: Keys)
        ensures
            r.emptied_from(*self),
    {
        match self {
            Keys::Positional(_) => Keys::Positional(0),
            Keys::Explicit(c) => Keys::Explicit(c.empty_like()),
        }
    }
}

} // verus!
