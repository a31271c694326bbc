//! Why a geom could not be built.

use vstd::prelude::*;

use crate::names::{decimal, decimal_digits};
use crate::num::Num;

verus! {

/// Why a geom, or a change to one, was rejected.
#[derive(Debug)]
pub enum BuildError {
    /// A required channel is absent.
    MissingChannel {
        /// The geom.
        label: String,
        /// The channel.
        name: String,
    },
    /// A channel that has to vary by row is constant.
    NotData {
        /// The geom.
        label: String,
        /// The channel.
        name: String,
    },
    /// A required column is not as long as the `x` column.
    SiblingLength {
        /// The geom.
        label: String,
        /// The channel.
        name: String,
        /// The column's length.
        len: usize,
        /// The length of the `x` column.
        rows: usize,
    },
    /// A column is not as long as there are rows.
    ChannelLength {
        /// The geom.
        label: String,
        /// The channel.
        name: String,
        /// The column's length.
        len: usize,
        /// How many rows there are.
        rows: usize,
    },
    /// A pick id is no integer that a pick buffer can hold.
    PickIdRange {
        /// The geom.
        label: String,
        /// Whether the id stands in a column.
        from_data: bool,
        /// The number.
        value: Num,
    },
    /// A pick id is not numeric.
    PickIdKind {
        /// The geom.
        label: String,
        /// Whether the id stands in a column.
        from_data: bool,
    },
    /// Channels that the geom does not declare.
    UnknownChannels {
        /// The geom.
        label: String,
        /// The channels, sorted.
        names: Vec<String>,
    },
    /// The key column is not as long as there are rows.
    KeysLength {
        /// The column's length.
        len: usize,
        /// How many rows there are.
        rows: usize,
    },
    /// A replaced column is not as long as there are rows.
    SetLength {
        /// The channel.
        name: String,
        /// The column's length.
        len: usize,
        /// How many rows there are.
        rows: usize,
    },
    /// A ribbon has no second edge.
    NoSecondEdge {
        /// The geom.
        label: String,
    },
}

/// What a [`BuildError`] says.
pub enum BuildFault {
    /// A required channel is absent.
    MissingChannel { label: Seq<char>, name: Seq<char> },
    /// A channel that has to vary by row is constant.
    NotData { label: Seq<char>, name: Seq<char> },
    /// A required column is not as long as the `x` column.
    SiblingLength { label: Seq<char>, name: Seq<char>, len: nat, rows: nat },
    /// A column is not as long as there are rows.
    ChannelLength { label: Seq<char>, name: Seq<char>, len: nat, rows: nat },
    /// A pick id is no integer that a pick buffer can hold.
    PickIdRange { label: Seq<char>, from_data: bool, value: Num },
    /// A pick id is not numeric.
    PickIdKind { label: Seq<char>, from_data: bool },
    /// Channels that the geom does not declare.
    UnknownChannels { label: Seq<char>, names: Seq<Seq<char>> },
    /// The key column is not as long as there are rows.
    KeysLength { len: nat, rows: nat },
    /// A replaced column is not as long as there are rows.
    SetLength { name: Seq<char>, len: nat, rows: nat },
    /// A ribbon has no second edge.
    NoSecondEdge { label: Seq<char> },
}

/// The characters of each string.
pub open spec fn texts(s: Seq<String>) -> Seq<Seq<char>> {
    Seq::new(s.len(), |i: int| s[i]@)
}

impl View for BuildError {
    type V = BuildFault;

    open spec fn view(&self) -> BuildFault {
        match *self {
            BuildError::MissingChannel { label, name } => BuildFault::MissingChannel {
                label: label@,
                name: name@,
            },
            BuildError::NotData { label, name } => BuildFault::NotData {
                label: label@,
                name: name@,
            },
            BuildError::SiblingLength { label, name, len, rows } => BuildFault::SiblingLength {
                label: label@,
                name: name@,
                len: len as nat,
                rows: rows as nat,
            },
            BuildError::ChannelLength { label, name, len, rows } => BuildFault::ChannelLength {
                label: label@,
                name: name@,
                len: len as nat,
                rows: rows as nat,
            },
            BuildError::PickIdRange { label, from_data, value } => BuildFault::PickIdRange {
                label: label@,
                from_data,
                value,
            },
            BuildError::PickIdKind { label, from_data } => BuildFault::PickIdKind {
                label: label@,
                from_data,
            },
            BuildError::UnknownChannels { label, names } => BuildFault::UnknownChannels {
                label: label@,
                names: texts(names@),
            },
            BuildError::KeysLength { len, rows } => BuildFault::KeysLength {
                len: len as nat,
                rows: rows as nat,
            },
            BuildError::SetLength { name, len, rows } => BuildFault::SetLength {
                name: name@,
                len: len as nat,
                rows: rows as nat,
            },
            BuildError::NoSecondEdge { label } => BuildFault::NoSecondEdge { label: label@ },
        }
    }
}

/// A name between quotation marks.
pub open spec fn quoted(name: Seq<char>) -> Seq<char> {
    "\""@ + name + "\""@
}

/// The first `n` names, each between quotation marks, with commas.
pub open spec fn quoted_list(names: Seq<Seq<char>>, n: nat) -> Seq<char>
    decreases n,
{
    if n == 0 {
        Seq::empty()
    } else if n == 1 {
        quoted(names[0])
    } else {
        quoted_list(names, (n - 1) as nat) + ", "@ + quoted(names[n - 1])
    }
}

/// Where a pick id stands.
pub open spec fn pick_place(from_data: bool) -> Seq<char> {
    if from_data {
        "data column"@
    } else {
        "constant"@
    }
}

/// What [`BuildError::message`] says; `got` is how the rejected pick id reads.
pub open spec fn fault_message(f: BuildFault, got: Seq<char>) -> Seq<char> {
    match f {
        BuildFault::MissingChannel { label, name } => label + "::build: missing required channel "@
            + quoted(name),
        BuildFault::NotData { label, name } => label + "::build: "@ + quoted(name)
            + " must be data, not constant — positions vary per row"@,
        BuildFault::SiblingLength { label, name, len, rows } => label + "::build: "@ + quoted(name)
            + " length "@ + decimal_digits(len) + " does not match \"x\" length "@
            + decimal_digits(rows),
        BuildFault::ChannelLength { label, name, len, rows } => label + "::build: "@ + quoted(name)
            + " length "@ + decimal_digits(len) + " does not match row count "@ + decimal_digits(
            rows,
        ),
        BuildFault::PickIdRange { label, from_data, value } => label + "::build: \"pick_id\" "@
            + pick_place(from_data) + " must be a non-negative integer ≤ 0xFFFFFF, got "@ + got,
        BuildFault::PickIdKind { label, from_data } => label + "::build: \"pick_id\" "@
            + pick_place(from_data)
            + " must be numeric (Number/Date/DateTime/Time/Duration), got "@ + got,
        BuildFault::UnknownChannels { label, names } => label + "::build: unknown "@ + (if names.len()
            == 1 {
            "channel "@
        } else {
            "channels "@
        }) + quoted_list(names, names.len()) + " — not declared by this geom"@,
        BuildFault::KeysLength { len, rows } => "build_keys: keys length "@ + decimal_digits(len)
            + " does not match row count "@ + decimal_digits(rows),
        BuildFault::SetLength { name, len, rows } => "GeomState::set: "@ + quoted(name)
            + " length "@ + decimal_digits(len) + " does not match row count "@ + decimal_digits(
            rows,
        ),
        BuildFault::NoSecondEdge { label } => label
            + "::build: needs at least one of \"x2\" or \"y2\" (use a constant baseline, e.g. y2 = 0.0, for an area-to-axis ribbon)"@,
    }
}

fn push_quoted(s: &mut String, name: &str)
    ensures
        final(s)@ == old(s)@ + quoted(name@),
{
    s.append("\"");
    s.append(name);
    s.append("\"");
    assert(s@ =~= old(s)@ + quoted(name@));
}

fn join_quoted(names: &Vec<String>) -> (r: String)
    ensures
        r@ == quoted_list(texts(names@), names@.len()),
{
    let mut r = String::new();
    let mut i: usize = 0;
    while i < names.len()
        invariant
            i <= names@.len(),
            r@ == quoted_list(texts(names@), i as nat),
        decreases names@.len() - i,
    {
        let ghost before = r@;
        if i > 0 {
            r.append(", ");
        }
        push_quoted(&mut r, names[i].as_str());
        i = i + 1;
        proof {
            if i == 1 {
                assert(r@ =~= quoted(names@[0]@));
            } else {
                assert(r@ =~= before + ", "@ + quoted(names@[i - 1]@));
            }
        }
    }
    r
}

impl BuildError {
    /// The error in words. `got` is how the rejected pick id reads; no other
    /// error uses it.
    pub fn message(&self, got: &str) -> (r: String)
        ensures
            r@ == fault_message(self@, got@),
    {
        match self {
            BuildError::MissingChannel { label, name } => {
                let mut s = label.clone();
                s.append("::build: missing required channel ");
                push_quoted(&mut s, name.as_str());
                s
            },
            BuildError::NotData { label, name } => {
                let mut s = label.clone();
                s.append("::build: ");
                push_quoted(&mut s, name.as_str());
                s.append(" must be data, not constant — positions vary per row");
                s
            },
            BuildError::SiblingLength { label, name, len, rows } => {
                let mut s = label.clone();
                s.append("::build: ");
                push_quoted(&mut s, name.as_str());
                s.append(" length ");
                s.append(decimal(*len).as_str());
                s.append(" does not match \"x\" length ");
                s.append(decimal(*rows).as_str());
                s
            },
            BuildError::ChannelLength { label, name, len, rows } => {
                let mut s = label.clone();
                s.append("::build: ");
                push_quoted(&mut s, name.as_str());
                s.append(" length ");
                s.append(decimal(*len).as_str());
                s.append(" does not match row count ");
                s.append(decimal(*rows).as_str());
                s
            },
            BuildError::PickIdRange { label, from_data, value: _ } => {
                let mut s = label.clone();
                s.append("::build: \"pick_id\" ");
                s.append(
                    if *from_data {
                        "data column"
                    } else {
                        "constant"
                    },
                );
                s.append(" must be a non-negative integer ≤ 0xFFFFFF, got ");
                s.append(got);
                s
            },
            BuildError::PickIdKind { label, from_data } => {
                let mut s = label.clone();
                s.append("::build: \"pick_id\" ");
                s.append(
                    if *from_data {
                        "data column"
                    } else {
                        "constant"
                    },
                );
                s.append(" must be numeric (Number/Date/DateTime/Time/Duration), got ");
                s.append(got);
                s
            },
            BuildError::UnknownChannels { label, names } => {
                let mut s = label.clone();
                s.append("::build: unknown ");
                s.append(
                    if names.len() == 1 {
                        "channel "
                    } else {
                        "channels "
                    },
                );
                s.append(join_quoted(names).as_str());
                s.append(" — not declared by this geom");
                s
            },
            BuildError::KeysLength { len, rows } => {
                let mut s = "build_keys: keys length ".to_owned();
                s.append(decimal(*len).as_str());
                s.append(" does not match row count ");
                s.append(decimal(*rows).as_str());
                s
            },
            BuildError::SetLength { name, len, rows } => {
                let mut s = "GeomState::set: ".to_owned();
                push_quoted(&mut s, name.as_str());
                s.append(" length ");
                s.append(decimal(*len).as_str());
                s.append(" does not match row count ");
                s.append(decimal(*rows).as_str());
                s
            },
            BuildError::NoSecondEdge { label } => {
                let mut s = label.clone();
                s.append(
                    "::build: needs at least one of \"x2\" or \"y2\" (use a constant baseline, e.g. y2 = 0.0, for an area-to-axis ribbon)",
                );
                s
            },
        }
    }
}

} // verus!
