//! [`GeomState`]: the keys, channels and frame history that every geom holds,
//! and the checks that every geom passes on its way to being built.

use std::sync::Arc;
use vstd::prelude::*;

use crate::channel::{
    empty_channels_like, emptied_channels, shared_channels, CatalogEntry, Channel, ChannelDecl,
    Channels, Keys,
};
use crate::diff::{
    cells, diff_columns, diff_positional, diff_values, matches_by_key, matches_by_place, Diff, RowKey,
};
use crate::geom::error::{texts, BuildError, BuildFault};
use crate::marks::{cells_at, unique_values_at_first_rows};
use crate::names::{entry_at, has_name, name_less, name_lt, place_of, same_name};
use crate::value::{number_in, DataColumn, Value};

verus! {

/// How a geom reads rows for which no key was supplied.
#[derive(Clone, Copy, Debug, PartialEq, Eq, Structural)]
pub enum KeysStrategy {
    /// Each row is known by its place.
    PerRow,
    /// All rows share one key and form one mark.
    OneMark,
}

/// The state that every geom holds.
pub struct GeomState {
    /// The keys of the rows.
    pub keys: Keys,
    /// The channels by name.
    pub channels: Channels,
    /// The keys of the frame before.
    pub prev_keys: Keys,
    /// The channels of the frame before.
    pub prev_channels: Channels,
    /// Rows that the last diff saw entering.
    pub enter: Vec<usize>,
    /// Rows that the last diff matched: previous place, next place.
    pub update: Vec<(usize, usize)>,
    /// What the rows that the last diff saw leaving were known by.
    pub exit: Vec<RowKey>,
    /// Whether the diff is out of date.
    pub dirty: bool,
    /// The channels that the geom declares, by name.
    pub declared: Vec<ChannelDecl>,
}

/// Whether every column among `channels` has `n` cells.
pub open spec fn lengths_agree(channels: Map<Seq<char>, Channel>, n: nat) -> bool {
    forall|k: Seq<char>|
        #![trigger channels[k]]
        channels.contains_key(k) && channels[k].column() is Some ==> channels[k].column()->0.count()
            == n
}

/// Whether the catalog lists `name`.
pub open spec fn in_catalog(catalog: Seq<CatalogEntry>, name: Seq<char>) -> bool {
    exists|i: int| 0 <= i < catalog.len() && (#[trigger] catalog[i]).0@ == name
}

/// Whether the catalog lists every channel.
pub open spec fn all_known(
    channels: Map<Seq<char>, Channel>,
    catalog: Seq<CatalogEntry>,
) -> bool {
    forall|k: Seq<char>| #[trigger] channels.contains_key(k) ==> in_catalog(catalog, k)
}

/// Whether a value can serve as a pick id.
pub open spec fn is_pick_id(v: Value) -> bool {
    number_in(v) is Some && exists|k: nat| #[trigger] number_in(v)->0.is_pick_index(k)
}

/// What is wrong with a value that cannot serve as a pick id.
pub open spec fn pick_fault(v: Value, from_data: bool, label: Seq<char>) -> BuildFault {
    match number_in(v) {
        Some(value) => BuildFault::PickIdRange { label, from_data, value },
        None => BuildFault::PickIdKind { label, from_data },
    }
}

/// Whether every value of the `pick_id` channel can serve as a pick id.
pub open spec fn pick_ids_valid(channels: Map<Seq<char>, Channel>) -> bool {
    channels.contains_key("pick_id"@) ==> match channels["pick_id"@] {
        Channel::Constant(v) => is_pick_id(v),
        Channel::RawConstant(v) => is_pick_id(v),
        Channel::Data(c) => forall|i: int| 0 <= i < c.count() ==> is_pick_id(#[trigger] c.cell(i)),
        Channel::RawData(c) => forall|i: int|
            0 <= i < c.count() ==> is_pick_id(#[trigger] c.cell(i)),
    }
}

/// Whether a supplied key column has one cell for each row.
pub open spec fn keys_fit(keys: Option<DataColumn>, n: nat) -> bool {
    keys is Some ==> keys->0.count() == n
}

/// Whether `keys` are what the rows are known by: the supplied column, or what
/// the strategy makes up.
pub open spec fn keys_built(
    keys: Keys,
    supplied: Option<DataColumn>,
    n: nat,
    strategy: KeysStrategy,
) -> bool {
    match (supplied, strategy) {
        (Some(c), _) => keys == Keys::Explicit(c),
        (None, KeysStrategy::PerRow) => keys matches Keys::Positional(m) && m == n,
        (None, KeysStrategy::OneMark) => keys matches Keys::Explicit(DataColumn::String(c))
            && c@.len() == n && forall|i: int| 0 <= i < n ==> (#[trigger] c@[i])@ == "_"@,
    }
}

/// The declaration that a catalog entry gives for the channel it names.
pub open spec fn declaration(
    entry: CatalogEntry,
    channels: Map<Seq<char>, Channel>,
) -> ChannelDecl {
    ChannelDecl {
        name: entry.0,
        data_bound: channels[entry.0@].column() is Some,
        expected_output: entry.1,
    }
}

/// The declarations of the supplied channels among the first `n` catalog
/// entries, in catalog order.
pub open spec fn declarations(
    channels: Map<Seq<char>, Channel>,
    catalog: Seq<CatalogEntry>,
    n: nat,
) -> Seq<ChannelDecl>
    decreases n,
{
    if n == 0 {
        Seq::empty()
    } else {
        let before = declarations(channels, catalog, (n - 1) as nat);
        if channels.contains_key(catalog[n - 1].0@) {
            before.push(declaration(catalog[n - 1], channels))
        } else {
            before
        }
    }
}

/// Whether declarations stand in the order of their names.
pub open spec fn decls_sorted(s: Seq<ChannelDecl>) -> bool {
    forall|i: int, j: int|
        #![trigger s[i], s[j]]
        0 <= i < j < s.len() ==> !name_lt(s[j].name@, s[i].name@)
}

/// Whether `r` declares the supplied channels of the catalog, by name.
pub open spec fn declares(
    r: Seq<ChannelDecl>,
    channels: Map<Seq<char>, Channel>,
    catalog: Seq<CatalogEntry>,
) -> bool {
    &&& decls_sorted(r)
    &&& r.to_multiset() == declarations(channels, catalog, catalog.len()).to_multiset()
}

/// Whether `s` is a freshly built state.
pub open spec fn freshly_built(
    s: GeomState,
    keys: Option<DataColumn>,
    channels: Map<Seq<char>, Channel>,
    n: nat,
    strategy: KeysStrategy,
    declared: Seq<ChannelDecl>,
) -> bool {
    &&& keys_built(s.keys, keys, n, strategy)
    &&& s.channels@ == channels
    &&& s.prev_keys.emptied_from(s.keys)
    &&& emptied_channels(s.prev_channels@, channels)
    &&& s.enter@.len() == 0
    &&& s.update@.len() == 0
    &&& s.exit@.len() == 0
    &&& s.dirty
    &&& s.declared@ == declared
}

fn build_keys(keys_opt: Option<DataColumn>, n: usize, strategy: KeysStrategy) -> (r: Result<
    Keys,
    BuildError,
>)
    ensures
        match r {
            Ok(k) => keys_fit(keys_opt, n as nat) && keys_built(k, keys_opt, n as nat, strategy)
                && k.count() == n,
            Err(e) => !keys_fit(keys_opt, n as nat) && e@ == (BuildFault::KeysLength {
                len: keys_opt->0.count(),
                rows: n as nat,
            }),
        },
{
    match keys_opt {
        Some(k) => {
            let len: usize = k.len();
            if len != n {
                return Err(BuildError::KeysLength { len, rows: n });
            }
            Ok(Keys::Explicit(k))
        },
        None => match strategy {
            KeysStrategy::PerRow => Ok(Keys::Positional(n)),
            KeysStrategy::OneMark => {
                let mut c: Vec<String> = Vec::new();
                let mut i: usize = 0;
                while i < n
                    invariant
                        i <= n,
                        c@.len() == i,
                        forall|j: int| 0 <= j < i ==> (#[trigger] c@[j])@ == "_"@,
                    decreases n - i,
                {
                    c.push("_".to_owned());
                    i = i + 1;
                }
                Ok(Keys::Explicit(DataColumn::String(Arc::new(c))))
            },
        },
    }
}

impl GeomState {
    /// What building guarantees of a state: every column has one cell for each
    /// row.
    pub open spec fn wf(&self) -> bool {
        lengths_agree(self.channels@, self.keys.count())
    }

    /// Whether the diff sets are those between the frame before and this one.
    pub open spec fn diffed(&self, before: GeomState) -> bool {
        let d = Diff { enter: self.enter, update: self.update, exit: self.exit };
        match (before.prev_keys, before.keys) {
            (Keys::Explicit(p), Keys::Explicit(n)) => matches_by_key(d, cells(p), cells(n)),
            _ => matches_by_place(d, before.prev_keys.count(), before.keys.count()),
        }
    }

    /// Whether the diff sets are those between the marks of the frame before
    /// and of this one, each mark known by the key of its first row.
    pub open spec fn diffed_by_mark(
        &self,
        before: GeomState,
        prev_rows: Seq<usize>,
        next_rows: Seq<usize>,
    ) -> bool {
        let d = Diff { enter: self.enter, update: self.update, exit: self.exit };
        match (before.prev_keys, before.keys) {
            (Keys::Explicit(p), Keys::Explicit(n)) => matches_by_key(
                d,
                cells_at(p, prev_rows),
                cells_at(n, next_rows),
            ),
            _ => matches_by_place(d, prev_rows.len(), next_rows.len()),
        }
    }

    /// Builds the state. The frame before is one of the same channels with no
    /// rows. A supplied key column has to have one cell for each row.
    pub fn from_builder(
        keys_opt: Option<DataColumn>,
        channels: Channels,
        n: usize,
        keys_strategy: KeysStrategy,
        declared: Vec<ChannelDecl>,
    ) -> (r: Result<GeomState, BuildError>)
        ensures
            match r {
                Ok(s) => {
                    &&& keys_fit(keys_opt, n as nat)
                    &&& freshly_built(s, keys_opt, channels@, n as nat, keys_strategy, declared@)
                    &&& s.keys.count() == n
                    &&& lengths_agree(channels@, n as nat) ==> s.wf()
                },
                Err(e) => !keys_fit(keys_opt, n as nat) && e@ == (BuildFault::KeysLength {
                    len: keys_opt->0.count(),
                    rows: n as nat,
                }),
            },
    {
        let keys = match build_keys(keys_opt, n, keys_strategy) {
            Ok(k) => k,
            Err(e) => return Err(e),
        };
        let prev_keys = keys.empty_like();
        let prev_channels = empty_channels_like(&channels);
        Ok(
            GeomState {
                keys,
                channels,
                prev_keys,
                prev_channels,
                enter: Vec::new(),
                update: Vec::new(),
                exit: Vec::new(),
                dirty: true,
                declared,
            },
        )
    }

    /// How many rows the geom has.
    pub fn len(&self) -> (r: usize)
        ensures
            r == self.keys.count(),
    {
        self.keys.len()
    }

    /// Whether the geom has no row.
    pub fn is_empty(&self) -> (r: bool)
        ensures
            r == (self.keys.count() == 0),
    {
        self.keys.is_empty()
    }

    /// Replaces one channel, and puts the diff out of date. A column has to
    /// have one cell for each row.
    pub fn set(&mut self, channel: String, value: Channel) -> (r: Result<(), BuildError>)
        ensures
            match r {
                Ok(_) => {
                    &&& value.column() is Some ==> value.column()->0.count() == old(self).keys.count()
                    &&& final(self).channels@ == old(self).channels@.insert(channel@, value)
                    &&& final(self).dirty
                    &&& final(self).same_but_channels(*old(self))
                },
                Err(e) => {
                    &&& value.column() is Some
                    &&& value.column()->0.count() != old(self).keys.count()
                    &&& e@ == (BuildFault::SetLength {
                        name: channel@,
                        len: value.column()->0.count(),
                        rows: old(self).keys.count(),
                    })
                    &&& *final(self) == *old(self)
                },
            },
            old(self).wf() ==> final(self).wf(),
    {
        let rows: usize = self.keys.len();
        if let Some(len) = value.data_len() {
            if len != rows {
                return Err(BuildError::SetLength { name: channel, len, rows });
            }
        }
        self.channels.insert(channel, value);
        self.dirty = true;
        Ok(())
    }

    /// Whether `self` differs from `other` at most in its channels and in
    /// whether the diff is out of date.
    pub open spec fn same_but_channels(&self, other: GeomState) -> bool {
        &&& self.keys == other.keys
        &&& self.prev_keys == other.prev_keys
        &&& self.prev_channels == other.prev_channels
        &&& self.enter == other.enter
        &&& self.update == other.update
        &&& self.exit == other.exit
        &&& self.declared == other.declared
    }

    /// Makes the current frame the one before, and takes the frame of `new`.
    pub fn replace_current_with(&mut self, new: GeomState)
        ensures
            final(self).prev_keys == old(self).keys,
            final(self).prev_channels == old(self).channels,
            final(self).keys == new.keys,
            final(self).channels == new.channels,
            final(self).declared == new.declared,
            final(self).dirty,
            final(self).enter == old(self).enter,
            final(self).update == old(self).update,
            final(self).exit == old(self).exit,
            new.wf() ==> final(self).wf(),
    {
        let GeomState {
            keys,
            channels,
            prev_keys: _,
            prev_channels: _,
            enter: _,
            update: _,
            exit: _,
            dirty: _,
            declared,
        } = new;
        let mut old_keys = keys;
        std::mem::swap(&mut self.keys, &mut old_keys);
        let mut old_channels = channels;
        std::mem::swap(&mut self.channels, &mut old_channels);
        self.prev_keys = old_keys;
        self.prev_channels = old_channels;
        self.declared = declared;
        self.dirty = true;
    }

    fn take_diff(&mut self, d: Diff)
        ensures
            final(self).enter == d.enter,
            final(self).update == d.update,
            final(self).exit == d.exit,
            final(self).prev_keys == old(self).keys,
            final(self).prev_channels@ == old(self).channels@,
            final(self).keys == old(self).keys,
            final(self).channels == old(self).channels,
            final(self).declared == old(self).declared,
            final(self).dirty == old(self).dirty,
    {
        let prev_channels = shared_channels(&self.channels);
        let prev_keys = self.keys.shared();
        self.enter = d.enter;
        self.update = d.update;
        self.exit = d.exit;
        self.prev_keys = prev_keys;
        self.prev_channels = prev_channels;
    }

    /// Diffs the rows against the frame before and makes this frame the one
    /// before. Does nothing while the diff is up to date.
    pub fn rebuild_diff_against_previous(&mut self)
        ensures
            !old(self).dirty ==> *final(self) == *old(self),
            old(self).dirty ==> {
                &&& final(self).diffed(*old(self))
                &&& final(self).prev_keys == old(self).keys
                &&& final(self).prev_channels@ == old(self).channels@
            },
            !final(self).dirty,
            final(self).keys == old(self).keys,
            final(self).channels == old(self).channels,
            final(self).declared == old(self).declared,
    {
        if !self.dirty {
            return;
        }
        let d = match (&self.prev_keys, &self.keys) {
            (Keys::Explicit(p), Keys::Explicit(n)) => diff_columns(p, n),
            _ => diff_positional(self.prev_keys.len(), self.keys.len()),
        };
        self.take_diff(d);
        self.dirty = false;
    }

    /// Diffs the marks against those of the frame before and makes this frame
    /// the one before. A mark is known by the key of its first row.
    ///
    /// Whether the diff is out of date is left for the caller to settle, once
    /// whatever it keeps beside the state is up to date too.
    pub fn rebuild_grouped_diff(&mut self, prev_first_rows: &[usize], next_first_rows: &[usize])
        ensures
            final(self).diffed_by_mark(*old(self), prev_first_rows@, next_first_rows@),
            final(self).prev_keys == old(self).keys,
            final(self).prev_channels@ == old(self).channels@,
            final(self).keys == old(self).keys,
            final(self).channels == old(self).channels,
            final(self).declared == old(self).declared,
            final(self).dirty == old(self).dirty,
    {
        let d = match (&self.prev_keys, &self.keys) {
            (Keys::Explicit(p), Keys::Explicit(n)) => {
                let prev_unique = unique_values_at_first_rows(p, prev_first_rows);
                let next_unique = unique_values_at_first_rows(n, next_first_rows);
                diff_values(&prev_unique, &next_unique)
            },
            _ => diff_positional(prev_first_rows.len(), next_first_rows.len()),
        };
        self.take_diff(d);
    }
}

/// The column of a channel that has to vary by row.
pub fn require_data_column<'a>(name: &str, channels: &'a Channels, geom_label: &str) -> (r: Result<
    &'a DataColumn,
    BuildError,
>)
    ensures
        match r {
            Ok(c) => channels@.contains_key(name@) && channels@[name@].column() == Some(*c),
            Err(e) => if channels@.contains_key(name@) {
                channels@[name@].column() is None && e@ == (BuildFault::NotData {
                    label: geom_label@,
                    name: name@,
                })
            } else {
                e@ == (BuildFault::MissingChannel { label: geom_label@, name: name@ })
            },
        },
{
    match channels.get(name) {
        Some(Channel::Data(c)) => Ok(c),
        Some(Channel::RawData(c)) => Ok(c),
        Some(_) => Err(
            BuildError::NotData { label: geom_label.to_owned(), name: name.to_owned() },
        ),
        None => Err(
            BuildError::MissingChannel { label: geom_label.to_owned(), name: name.to_owned() },
        ),
    }
}

/// Whether `name` is a column of `n` cells.
pub open spec fn column_of_len(channels: Map<Seq<char>, Channel>, name: Seq<char>, n: nat) -> bool {
    channels.contains_key(name) && channels[name].column() is Some
        && channels[name].column()->0.count() == n
}

/// What is wrong with `name` as a column of `n` cells.
pub open spec fn sibling_fault(
    channels: Map<Seq<char>, Channel>,
    name: Seq<char>,
    n: nat,
    label: Seq<char>,
) -> BuildFault {
    if !channels.contains_key(name) {
        BuildFault::MissingChannel { label, name }
    } else if channels[name].column() is None {
        BuildFault::NotData { label, name }
    } else {
        BuildFault::SiblingLength {
            label,
            name,
            len: channels[name].column()->0.count(),
            rows: n,
        }
    }
}

/// Whether `i` is the first of `siblings` that is no column of `n` cells.
pub open spec fn first_faulty_sibling(
    channels: Map<Seq<char>, Channel>,
    siblings: Seq<&str>,
    n: nat,
    i: int,
) -> bool {
    &&& 0 <= i < siblings.len()
    &&& !column_of_len(channels, siblings[i]@, n)
    &&& forall|j: int| 0 <= j < i ==> column_of_len(channels, (#[trigger] siblings[j])@, n)
}

/// Whether `x` and every one of `siblings` is a column of `n` cells.
pub open spec fn has_x_and(
    channels: Map<Seq<char>, Channel>,
    siblings: Seq<&str>,
    n: nat,
) -> bool {
    &&& column_of_len(channels, "x"@, n)
    &&& forall|i: int|
        0 <= i < siblings.len() ==> column_of_len(channels, (#[trigger] siblings[i])@, n)
}

/// Whether `e` says what is wrong with `x`, or else with the first of
/// `siblings` that is not a column as long as it.
pub open spec fn x_and_fault(
    channels: Map<Seq<char>, Channel>,
    siblings: Seq<&str>,
    label: Seq<char>,
    e: BuildFault,
) -> bool {
    if !channels.contains_key("x"@) {
        e == (BuildFault::MissingChannel { label, name: "x"@ })
    } else if channels["x"@].column() is None {
        e == (BuildFault::NotData { label, name: "x"@ })
    } else {
        let n = channels["x"@].column()->0.count();
        exists|i: int|
            #[trigger] first_faulty_sibling(channels, siblings, n, i) && e == sibling_fault(
                channels,
                siblings[i]@,
                n,
                label,
            )
    }
}

/// The row count: the length of the `x` column, which every column in
/// `siblings` has to share.
pub fn require_x_and_siblings(channels: &Channels, siblings: &[&str], geom_label: &str) -> (r: Result<
    usize,
    BuildError,
>)
    ensures
        match r {
            Ok(n) => has_x_and(channels@, siblings@, n as nat),
            Err(e) => x_and_fault(channels@, siblings@, geom_label@, e@) && forall|n: nat|
                !has_x_and(channels@, siblings@, n),
        },
{
    let n: usize = match require_data_column("x", channels, geom_label) {
        Ok(c) => c.len(),
        Err(e) => return Err(e),
    };
    let mut i: usize = 0;
    while i < siblings.len()
        invariant
            i <= siblings@.len(),
            column_of_len(channels@, "x"@, n as nat),
            forall|j: int|
                0 <= j < i ==> column_of_len(channels@, (#[trigger] siblings@[j])@, n as nat),
        decreases siblings@.len() - i,
    {
        let name = siblings[i];
        match require_data_column(name, channels, geom_label) {
            Ok(c) => {
                let len: usize = c.len();
                if len != n {
                    assert(first_faulty_sibling(channels@, siblings@, n as nat, i as int));
                    return Err(
                        BuildError::SiblingLength {
                            label: geom_label.to_owned(),
                            name: name.to_owned(),
                            len,
                            rows: n,
                        },
                    );
                }
            },
            Err(e) => {
                assert(first_faulty_sibling(channels@, siblings@, n as nat, i as int));
                return Err(e);
            },
        }
        i = i + 1;
    }
    Ok(n)
}

/// Whether `e` names a column that has not `n` cells.
pub open spec fn length_fault(
    channels: Map<Seq<char>, Channel>,
    n: nat,
    label: Seq<char>,
    e: BuildFault,
) -> bool {
    exists|k: Seq<char>|
        #![trigger channels[k]]
        {
            &&& channels.contains_key(k)
            &&& channels[k].column() is Some
            &&& channels[k].column()->0.count() != n
            &&& e == (BuildFault::ChannelLength {
                label,
                name: k,
                len: channels[k].column()->0.count(),
                rows: n,
            })
        }
}

/// Checks that every column has `n` cells. The error names one that has not.
pub fn validate_channel_lengths(channels: &Channels, n: usize, geom_label: &str) -> (r: Result<
    (),
    BuildError,
>)
    ensures
        match r {
            Ok(_) => lengths_agree(channels@, n as nat),
            Err(e) => !lengths_agree(channels@, n as nat) && length_fault(
                channels@,
                n as nat,
                geom_label@,
                e@,
            ),
        },
{
    let count: usize = channels.len();
    let ghost s = channels.entry_seq();
    let mut i: usize = 0;
    while i < count
        invariant
            i <= count,
            count == s.len(),
            s == channels.entry_seq(),
            crate::names::distinct_names(s),
            channels@ == crate::names::entry_map(s),
            forall|j: int|
                #![trigger s[j]]
                0 <= j < i && s[j].1.column() is Some ==> s[j].1.column()->0.count() == n,
        decreases count - i,
    {
        proof {
            entry_at(s, i as int);
        }
        if let Some(len) = channels.value_at(i).data_len() {
            if len != n {
                let ghost k = s[i as int].0@;
                assert(channels@[k].column() is Some);
                return Err(
                    BuildError::ChannelLength {
                        label: geom_label.to_owned(),
                        name: channels.name_at(i).clone(),
                        len,
                        rows: n,
                    },
                );
            }
        }
        i = i + 1;
    }
    proof {
        assert forall|k: Seq<char>|
            #![trigger channels@[k]]
            channels@.contains_key(k) && channels@[k].column() is Some implies channels@[k].column()->0.count()
            == n by {
            let j = place_of(s, k);
            assert(has_name(s, k));
            assert(s[j].0@ == k);
        }
    }
    Ok(())
}

fn check_pick_id(v: &Value, from_data: bool, geom_label: &str) -> (r: Result<(), BuildError>)
    ensures
        match r {
            Ok(_) => is_pick_id(*v),
            Err(e) => !is_pick_id(*v) && e@ == pick_fault(*v, from_data, geom_label@),
        },
{
    match v.as_number() {
        Some(value) => match value.as_pick_index() {
            Some(k) => {
                assert(value.is_pick_index(k as nat));
                Ok(())
            },
            None => Err(
                BuildError::PickIdRange { label: geom_label.to_owned(), from_data, value },
            ),
        },
        None => Err(BuildError::PickIdKind { label: geom_label.to_owned(), from_data }),
    }
}

/// Whether `i` is the first cell of `c` that cannot serve as a pick id.
pub open spec fn first_bad_pick(c: DataColumn, i: int) -> bool {
    &&& 0 <= i < c.count()
    &&& !is_pick_id(c.cell(i))
    &&& forall|j: int| 0 <= j < i ==> is_pick_id(#[trigger] c.cell(j))
}

fn check_pick_column(c: &DataColumn, geom_label: &str) -> (r: Result<(), BuildError>)
    ensures
        match r {
            Ok(_) => forall|i: int| 0 <= i < c.count() ==> is_pick_id(#[trigger] c.cell(i)),
            Err(e) => exists|i: int|
                #[trigger] first_bad_pick(*c, i) && e@ == pick_fault(c.cell(i), true, geom_label@),
        },
{
    let n: usize = c.len();
    let mut i: usize = 0;
    while i < n
        invariant
            i <= n,
            n == c.count(),
            forall|j: int| 0 <= j < i ==> is_pick_id(#[trigger] c.cell(j)),
        decreases n - i,
    {
        let v = c.get(i);
        match check_pick_id(&v, true, geom_label) {
            Ok(_) => {},
            Err(e) => {
                assert(first_bad_pick(*c, i as int));
                return Err(e);
            },
        }
        i = i + 1;
    }
    Ok(())
}

/// Whether `e` says what is wrong with the `pick_id` channel: the constant, or
/// the first cell of its column that cannot serve as a pick id.
pub open spec fn pick_channel_fault(ch: Channel, label: Seq<char>, e: BuildFault) -> bool {
    match ch {
        Channel::Constant(v) => !is_pick_id(v) && e == pick_fault(v, false, label),
        Channel::RawConstant(v) => !is_pick_id(v) && e == pick_fault(v, false, label),
        Channel::Data(c) => exists|i: int|
            #[trigger] first_bad_pick(c, i) && e == pick_fault(c.cell(i), true, label),
        Channel::RawData(c) => exists|i: int|
            #[trigger] first_bad_pick(c, i) && e == pick_fault(c.cell(i), true, label),
    }
}

/// Checks the `pick_id` channel, if there is one: each of its values has to be
/// an integer that a pick buffer can hold.
pub fn validate_pick_id_channel(channels: &Channels, geom_label: &str) -> (r: Result<
    (),
    BuildError,
>)
    ensures
        match r {
            Ok(_) => pick_ids_valid(channels@),
            Err(e) => {
                &&& !pick_ids_valid(channels@)
                &&& channels@.contains_key("pick_id"@)
                &&& pick_channel_fault(channels@["pick_id"@], geom_label@, e@)
            },
        },
{
    match channels.get("pick_id") {
        None => Ok(()),
        Some(Channel::Constant(v)) => check_pick_id(v, false, geom_label),
        Some(Channel::RawConstant(v)) => check_pick_id(v, false, geom_label),
        Some(Channel::Data(c)) => check_pick_column(c, geom_label),
        Some(Channel::RawData(c)) => check_pick_column(c, geom_label),
    }
}

fn catalog_lists(catalog: &[CatalogEntry], name: &str) -> (r: bool)
    ensures
        r == in_catalog(catalog@, name@),
{
    let mut i: usize = 0;
    while i < catalog.len()
        invariant
            i <= catalog@.len(),
            forall|j: int| 0 <= j < i ==> (#[trigger] catalog@[j]).0@ != name@,
        decreases catalog@.len() - i,
    {
        if same_name(catalog[i].0, name) {
            return true;
        }
        i = i + 1;
    }
    false
}

/// Whether names stand in order, none twice.
pub open spec fn names_sorted(s: Seq<Seq<char>>) -> bool {
    forall|i: int, j: int| #![trigger s[i], s[j]] 0 <= i < j < s.len() ==> name_lt(s[i], s[j])
}

/// Whether `s` lists the channels that the catalog does not, in order.
pub open spec fn lists_unknown(
    s: Seq<Seq<char>>,
    channels: Map<Seq<char>, Channel>,
    catalog: Seq<CatalogEntry>,
) -> bool {
    &&& names_sorted(s)
    &&& forall|k: Seq<char>|
        s.contains(k) <==> #[trigger] channels.contains_key(k) && !in_catalog(catalog, k)
}

/// Puts `name` in its place in a sorted list that lacks it.
fn insert_sorted(list: &mut Vec<String>, name: String)
    requires
        names_sorted(texts(old(list)@)),
        !texts(old(list)@).contains(name@),
    ensures
        names_sorted(texts(final(list)@)),
        forall|k: Seq<char>| #[trigger]
            texts(final(list)@).contains(k) <==> texts(old(list)@).contains(k) || k == name@,
{
    let ghost before = texts(list@);
    let mut i: usize = 0;
    while i < list.len() && name_less(list[i].as_str(), name.as_str())
        invariant
            i <= list@.len(),
            before == texts(list@),
            names_sorted(before),
            forall|j: int| 0 <= j < i ==> name_lt(#[trigger] before[j], name@),
        decreases list@.len() - i,
    {
        i = i + 1;
    }
    let ghost key = name@;
    let ghost at = i as int;
    proof {
        if i < before.len() {
            crate::names::name_lt_total(before[i as int], key);
            assert(before[i as int] != key);
        }
    }
    list.insert(i, name);
    let ghost after = texts(list@);
    proof {
        assert(after =~= before.insert(at, key));
        assert forall|a: int, b: int|
            #![trigger after[a], after[b]]
            0 <= a < b < after.len() implies name_lt(after[a], after[b]) by {
            let x = if a < at {
                a
            } else {
                a - 1
            };
            let y = if b < at {
                b
            } else {
                b - 1
            };
            if a == at {
                if y > at {
                    crate::names::name_lt_transitive(key, before[at], before[y]);
                }
            } else if b == at {
                assert(name_lt(before[a], key));
            } else {
                assert(name_lt(before[x], before[y]));
            }
        }
        assert forall|k: Seq<char>| #[trigger] after.contains(k) <==> before.contains(k) || k
            == key by {
            if after.contains(k) {
                let w = choose|w: int| 0 <= w < after.len() && after[w] == k;
                if w < at {
                    assert(before[w] == k);
                } else if w > at {
                    assert(before[w - 1] == k);
                }
            }
            if before.contains(k) {
                let w = choose|w: int| 0 <= w < before.len() && before[w] == k;
                if w < at {
                    assert(after[w] == k);
                } else {
                    assert(after[w + 1] == k);
                }
            }
            assert(after[at] == key);
        }
    }
}

/// Checks that the catalog lists every channel. The error names, in order,
/// those that it does not.
pub fn validate_known_channels(
    channels: &Channels,
    catalog: &[CatalogEntry],
    geom_label: &str,
) -> (r: Result<(), BuildError>)
    ensures
        match r {
            Ok(_) => all_known(channels@, catalog@),
            Err(e) => {
                &&& !all_known(channels@, catalog@)
                &&& e@ matches BuildFault::UnknownChannels { label, names } && label == geom_label@
                    && lists_unknown(names, channels@, catalog@)
            },
        },
{
    let count: usize = channels.len();
    let ghost s = channels.entry_seq();
    let mut unknown: Vec<String> = Vec::new();
    let mut i: usize = 0;
    while i < count
        invariant
            i <= count,
            count == s.len(),
            s == channels.entry_seq(),
            crate::names::distinct_names(s),
            channels@ == crate::names::entry_map(s),
            names_sorted(texts(unknown@)),
            forall|k: Seq<char>|
                texts(unknown@).contains(k) <==> #[trigger] has_name(s.take(i as int), k)
                    && !in_catalog(catalog@, k),
        decreases count - i,
    {
        let name = channels.name_at(i);
        proof {
            crate::names::entry_prefix(s, i as int);
            assert forall|k: Seq<char>| #[trigger] has_name(s.take(i + 1), k) == (has_name(
                s.take(i as int),
                k,
            ) || k == s[i as int].0@) by {
                assert(crate::names::entry_map(s.take(i + 1)).contains_key(k)
                    == crate::names::entry_map(s.take(i as int)).insert(
                    s[i as int].0@,
                    s[i as int].1,
                ).contains_key(k));
            }
            assert(!has_name(s.take(i as int), name@));
        }
        let ghost before = texts(unknown@);
        let listed = catalog_lists(catalog, name.as_str());
        if !listed {
            assert(!before.contains(name@));
            insert_sorted(&mut unknown, name.clone());
        }
        proof {
            let after = texts(unknown@);
            assert forall|k: Seq<char>|
                after.contains(k) <==> #[trigger] has_name(s.take(i + 1), k) && !in_catalog(
                    catalog@,
                    k,
                ) by {
                assert(has_name(s.take(i + 1), k) == (has_name(s.take(i as int), k) || k
                    == s[i as int].0@));
                assert(before.contains(k) <==> has_name(s.take(i as int), k) && !in_catalog(
                    catalog@,
                    k,
                ));
                if listed {
                    assert(after == before);
                } else {
                    assert(after.contains(k) <==> before.contains(k) || k == name@);
                }
            }
        }
        i = i + 1;
    }
    proof {
        assert(s.take(count as int) =~= s);
    }
    if unknown.len() == 0 {
        proof {
            assert forall|k: Seq<char>| #[trigger] channels@.contains_key(k) implies in_catalog(
                catalog@,
                k,
            ) by {
                assert(has_name(s, k));
                if !in_catalog(catalog@, k) {
                    assert(texts(unknown@).contains(k));
                }
            }
        }
        return Ok(());
    }
    proof {
        let k = texts(unknown@)[0];
        assert(texts(unknown@).contains(k));
        assert(has_name(s, k));
        assert(channels@.contains_key(k));
        assert forall|k: Seq<char>|
            texts(unknown@).contains(k) <==> #[trigger] channels@.contains_key(k) && !in_catalog(
                catalog@,
                k,
            ) by {
            assert(has_name(s, k) == channels@.contains_key(k));
        }
    }
    let e = BuildError::UnknownChannels { label: geom_label.to_owned(), names: unknown };
    proof {
        assert(!all_known(channels@, catalog@));
        assert(e@ == BuildFault::UnknownChannels { label: geom_label@, names: texts(unknown@) });
        assert(lists_unknown(texts(unknown@), channels@, catalog@));
    }
    Err(e)
}

/// Puts `decl` behind the last declaration whose name does not sort after its
/// own.
fn insert_decl(list: &mut Vec<ChannelDecl>, decl: ChannelDecl)
    requires
        decls_sorted(old(list)@),
    ensures
        decls_sorted(final(list)@),
        final(list)@.to_multiset() == old(list)@.to_multiset().insert(decl),
{
    let ghost before = list@;
    let mut i: usize = list.len();
    while i > 0 && name_less(decl.name, list[i - 1].name)
        invariant
            i <= list@.len(),
            list@ == before,
            decls_sorted(before),
            forall|j: int| i <= j < before.len() ==> name_lt(decl.name@, (#[trigger] before[j]).name@),
        decreases i,
    {
        i = i - 1;
    }
    let ghost at = i as int;
    list.insert(i, decl);
    proof {
        let after = list@;
        assert(after =~= before.insert(at, decl));
        assert forall|a: int, b: int|
            #![trigger after[a], after[b]]
            0 <= a < b < after.len() implies !name_lt(after[b].name@, after[a].name@) by {
            let x = if a < at {
                a
            } else {
                a - 1
            };
            let y = if b < at {
                b
            } else {
                b - 1
            };
            if a == at {
                if name_lt(before[y].name@, decl.name@) {
                    crate::names::name_lt_transitive(
                        before[y].name@,
                        decl.name@,
                        before[y].name@,
                    );
                    crate::names::name_lt_irreflexive(before[y].name@);
                }
            } else if b == at {
                if name_lt(decl.name@, before[a].name@) && a < at - 1 {
                    assert(!name_lt(before[at - 1].name@, before[a].name@));
                    lemma_not_less_transitive(
                        decl.name@,
                        before[at - 1].name@,
                        before[a].name@,
                    );
                }
            } else {
                assert(!name_lt(before[y].name@, before[x].name@));
            }
        }
        before.to_multiset_ensures();
        lemma_insert_multiset(before, at, decl);
    }
}

/// If `x` is not before `y`, and `y` not before `z`, then `x` is not before
/// `z`.
proof fn lemma_not_less_transitive(x: Seq<char>, y: Seq<char>, z: Seq<char>)
    requires
        !name_lt(x, y),
        !name_lt(y, z),
    ensures
        !name_lt(x, z),
{
    if name_lt(x, z) {
        crate::names::name_lt_total(y, x);
        if name_lt(y, x) {
            crate::names::name_lt_transitive(y, x, z);
        }
    }
}

proof fn lemma_insert_multiset(s: Seq<ChannelDecl>, i: int, d: ChannelDecl)
    requires
        0 <= i <= s.len(),
    ensures
        s.insert(i, d).to_multiset() == s.to_multiset().insert(d),
    decreases s.len() - i,
{
    s.to_multiset_ensures();
    if i == s.len() {
        assert(s.insert(i, d) =~= s.push(d));
    } else {
        let t = s.drop_last();
        t.to_multiset_ensures();
        lemma_insert_multiset(t, i, d);
        assert(s =~= t.push(s.last()));
        assert(s.insert(i, d) =~= t.insert(i, d).push(s.last()));
        t.insert(i, d).to_multiset_ensures();
        assert(t.to_multiset().insert(d).insert(s.last()) =~= t.to_multiset().insert(
            s.last(),
        ).insert(d));
    }
}

/// The declarations of the supplied channels that the catalog lists, by name.
pub fn filter_declared(channels: &Channels, catalog: &[CatalogEntry]) -> (r: Vec<ChannelDecl>)
    ensures
        declares(r@, channels@, catalog@),
{
    let mut r: Vec<ChannelDecl> = Vec::new();
    let mut i: usize = 0;
    proof {
        assert(declarations(channels@, catalog@, 0) =~= Seq::<ChannelDecl>::empty());
        assert(r@ =~= Seq::<ChannelDecl>::empty());
    }
    while i < catalog.len()
        invariant
            i <= catalog@.len(),
            decls_sorted(r@),
            r@.to_multiset() == declarations(channels@, catalog@, i as nat).to_multiset(),
        decreases catalog@.len() - i,
    {
        let (name, expected) = catalog[i];
        if let Some(ch) = channels.get(name) {
            proof {
                declarations(channels@, catalog@, i as nat).to_multiset_ensures();
            }
            insert_decl(
                &mut r,
                ChannelDecl { name, data_bound: ch.is_data(), expected_output: expected },
            );
        }
        i = i + 1;
    }
    r
}

/// Whether a geom can be built from these channels.
pub open spec fn buildable(
    keys: Option<DataColumn>,
    channels: Map<Seq<char>, Channel>,
    n: nat,
    catalog: Seq<CatalogEntry>,
) -> bool {
    &&& all_known(channels, catalog)
    &&& lengths_agree(channels, n)
    &&& pick_ids_valid(channels)
    &&& keys_fit(keys, n)
}

/// Whether `e` says why a geom cannot be built, the first reason of those
/// there are.
pub open spec fn build_fault(
    keys: Option<DataColumn>,
    channels: Map<Seq<char>, Channel>,
    n: nat,
    catalog: Seq<CatalogEntry>,
    label: Seq<char>,
    e: BuildFault,
) -> bool {
    if !all_known(channels, catalog) {
        e matches BuildFault::UnknownChannels { label: l, names } && l == label && lists_unknown(
            names,
            channels,
            catalog,
        )
    } else if !lengths_agree(channels, n) {
        length_fault(channels, n, label, e)
    } else if !pick_ids_valid(channels) {
        pick_channel_fault(channels["pick_id"@], label, e)
    } else {
        !keys_fit(keys, n) && e == (BuildFault::KeysLength { len: keys->0.count(), rows: n })
    }
}

/// Checks the channels and builds the state: every channel has to be in the
/// catalog, every column has to have `n` cells, every pick id has to be one,
/// and a supplied key column has to fit. The first of these that fails is
/// reported.
pub fn finalize_state(
    keys_opt: Option<DataColumn>,
    channels: Channels,
    n: usize,
    strategy: KeysStrategy,
    catalog: &[CatalogEntry],
    geom_label: &str,
) -> (r: Result<GeomState, BuildError>)
    ensures
        match r {
            Ok(s) => {
                &&& buildable(keys_opt, channels@, n as nat, catalog@)
                &&& declares(s.declared@, channels@, catalog@)
                &&& freshly_built(s, keys_opt, channels@, n as nat, strategy, s.declared@)
                &&& s.keys.count() == n
                &&& s.wf()
            },
            Err(e) => {
                &&& !buildable(keys_opt, channels@, n as nat, catalog@)
                &&& build_fault(keys_opt, channels@, n as nat, catalog@, geom_label@, e@)
            },
        },
{
    match validate_known_channels(&channels, catalog, geom_label) {
        Ok(_) => {},
        Err(e) => return Err(e),
    }
    match validate_channel_lengths(&channels, n, geom_label) {
        Ok(_) => {},
        Err(e) => return Err(e),
    }
    match validate_pick_id_channel(&channels, geom_label) {
        Ok(_) => {},
        Err(e) => return Err(e),
    }
    let declared = filter_declared(&channels, catalog);
    GeomState::from_builder(keys_opt, channels, n, strategy, declared)
}

/// A state fresh from the builder sees all its rows entering.
pub proof fn fresh_state_diffs_as_all_enter(before: GeomState, after: GeomState)
    requires
        before.prev_keys.emptied_from(before.keys),
        before.keys.count() <= usize::MAX,
        after.diffed(before),
    ensures
        after.enter@ == Seq::new(before.keys.count(), |i: int| i as usize),
        after.update@.len() == 0,
        after.exit@.len() == 0,
{
    let d = Diff { enter: after.enter, update: after.update, exit: after.exit };
    match (before.prev_keys, before.keys) {
        (Keys::Explicit(p), Keys::Explicit(n)) => {
            crate::diff::first_frame_all_enters(d, cells(p), cells(n));
        },
        _ => {
            assert(after.enter@ =~= Seq::new(before.keys.count(), |i: int| i as usize));
        },
    }
}

/// Rows that share the placeholder key form a single mark.
pub proof fn placeholder_keys_make_one_mark(
    keys: Keys,
    n: nat,
    marks: Seq<crate::marks::MarkSlot>,
)
    requires
        keys_built(keys, None, n, KeysStrategy::OneMark),
        n > 0,
        crate::marks::are_marks_of(marks, keys),
    ensures
        marks.len() == 1,
        marks[0].rows@ == crate::marks::row_run(0, n as int),
{
    let c = keys->Explicit_0;
    let k = cells(c);
    assert forall|i: int| 0 < i < n implies !#[trigger] crate::marks::breaks_before(k, i) by {
        let s = c->String_0;
        assert(s@[i]@ == "_"@);
        assert(s@[i - 1]@ == "_"@);
    }
    crate::marks::shared_key_makes_one_mark(marks, k, n as int);
}

} // verus!
