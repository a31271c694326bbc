//! What geoms with several rows to a mark have in common.

use vstd::prelude::*;

use crate::channel::Keys;
use crate::diff::cells;
use crate::geom::state::GeomState;
use crate::marks::{
    are_marks_of, are_runs, build_marks, build_marks_from_column, first_rows, first_rows_of,
    MarkSlot,
};

verus! {

/// Whether `marks` are the marks of the frame before: those of its key column,
/// and none without one.
pub open spec fn are_previous_marks(marks: Seq<MarkSlot>, keys: Keys) -> bool {
    match keys {
        Keys::Explicit(c) => are_runs(marks, cells(c), c.count() as int),
        Keys::Positional(_) => marks.len() == 0,
    }
}

/// Whether `after` is `before`, diffed mark by mark: `marks` are the marks of the
/// current frame, which becomes the frame before.
pub open spec fn diffed_in_marks(after: GeomState, before: GeomState, marks: Seq<MarkSlot>) -> bool {
    &&& are_marks_of(marks, before.keys)
    &&& exists|prev: Seq<MarkSlot>| #[trigger]
        are_previous_marks(prev, before.prev_keys) && after.diffed_by_mark(
            before,
            first_rows_of(prev),
            first_rows_of(marks),
        )
    &&& after.prev_keys == before.keys
    &&& after.prev_channels@ == before.channels@
    &&& after.keys == before.keys
    &&& after.channels == before.channels
    &&& after.declared == before.declared
    &&& !after.dirty
}

/// Diffs a state mark by mark and hands back the marks of the current frame.
/// Nothing is done where the diff is up to date.
pub fn diff_in_marks(state: &mut GeomState) -> (r: Option<Vec<MarkSlot>>)
    ensures
        match r {
            Some(marks) => old(state).dirty && diffed_in_marks(*final(state), *old(state), marks@),
            None => !old(state).dirty && *final(state) == *old(state),
        },
{
    if !state.dirty {
        return None;
    }
    let next = build_marks(&state.keys);
    let prev = match &state.prev_keys {
        Keys::Explicit(c) => build_marks_from_column(c),
        Keys::Positional(_) => Vec::new(),
    };
    assert(are_previous_marks(prev@, state.prev_keys));
    let prev_rows = first_rows(&prev);
    let next_rows = first_rows(&next);
    state.rebuild_grouped_diff(prev_rows.as_slice(), next_rows.as_slice());
    state.dirty = false;
    Some(next)
}

/// Whether `n` is how many marks there are: those that are kept, or those of the
/// keys where none are kept yet.
pub open spec fn is_mark_count(n: int, kept: Seq<MarkSlot>, keys: Keys) -> bool {
    if kept.len() == 0 && keys.count() > 0 {
        exists|marks: Seq<MarkSlot>| #[trigger] are_marks_of(marks, keys) && n == marks.len()
    } else {
        n == kept.len()
    }
}

/// How many marks there are.
pub fn count_marks(kept: &Vec<MarkSlot>, keys: &Keys) -> (r: usize)
    ensures
        is_mark_count(r as int, kept@, *keys),
{
    if kept.len() == 0 && keys.len() > 0 {
        let marks = build_marks(keys);
        assert(are_marks_of(marks@, *keys));
        marks.len()
    } else {
        kept.len()
    }
}

/// Whether `used` are the marks that are drawn: those that are kept, or those of
/// the keys where none are kept yet.
pub open spec fn are_drawn_marks(used: Seq<MarkSlot>, kept: Seq<MarkSlot>, keys: Keys) -> bool {
    if kept.len() == 0 && keys.count() > 0 {
        are_marks_of(used, keys)
    } else {
        used == kept
    }
}

} // verus!
