//! What a geom is built from.

use vstd::prelude::*;

use crate::channel::{shared_channels, Channel, Channels, Keys};
use crate::geom::state::GeomState;
use crate::names::NameMap;
use crate::value::DataColumn;

verus! {

/// Keys and channels, on their way to becoming a geom.
pub struct GeomBuilder {
    /// The key column, if one was supplied.
    pub keys: Option<DataColumn>,
    /// The channels.
    pub channels: Channels,
}

impl GeomBuilder {
    /// Nothing yet.
    pub fn new() -> (r: GeomBuilder)
        ensures
            r.keys is None,
            r.channels@ == Map::<Seq<char>, Channel>::empty(),
    {
        GeomBuilder { keys: None, channels: NameMap::new() }
    }

    /// From a key column and channels.
    pub fn from_parts(keys: Option<DataColumn>, channels: Channels) -> (r: GeomBuilder)
        ensures
            r.keys == keys,
            r.channels == channels,
    {
        GeomBuilder { keys, channels }
    }

    /// What another geom of the same rows would be built from: its channels,
    /// and its key column where it has one.
    pub fn from_state(state: &GeomState) -> (r: GeomBuilder)
        ensures
            r.channels@ == state.channels@,
            match state.keys {
                Keys::Explicit(c) => r.keys == Some(c),
                Keys::Positional(_) => r.keys is None,
            },
    {
        let keys = match &state.keys {
            Keys::Explicit(c) => Some(c.shared()),
            Keys::Positional(_) => None,
        };
        GeomBuilder { keys, channels: shared_channels(&state.channels) }
    }

    /// The key column and the channels.
    pub fn into_parts(self) -> (r: (Option<DataColumn>, Channels))
        ensures
            r.0 == self.keys,
            r.1 == self.channels,
    {
        (self.keys, self.channels)
    }

    /// Sets a channel.
    pub fn set(&mut self, name: &str, channel: Channel)
        ensures
            final(self).keys == old(self).keys,
            final(self).channels@ == old(self).channels@.insert(name@, channel),
    {
        self.channels.insert(name.to_owned(), channel);
    }

    /// Supplies the key column.
    pub fn keys(&mut self, keys: DataColumn)
        ensures
            final(self).keys == Some(keys),
            final(self).channels == old(self).channels,
    {
        self.keys = Some(keys);
    }
}

} // verus!
