//! What becomes of rows from one frame to the next.

use vstd::prelude::*;

use crate::channel::Keys;
use crate::diff::{cells, entering_rows, has_key, leaving, matches_by_place, Diff, RowKey};
use crate::geom::grouped::{are_previous_marks, diffed_in_marks};
use crate::geom::state::GeomState;
use crate::marks::{
    are_marks_of, breaks_before, cells_at, every_row_has_a_mark, first_rows_of, is_run, mark_end,
    MarkSlot,
};
use crate::value::{same_key, DataColumn, Value};

verus! {

/// Values stand for one key if they are one value. Strings and line patterns are
/// told apart by what they hold.
pub proof fn keys_tell_values_apart(a: Value, b: Value)
    ensures
        a == b ==> same_key(a, b),
        same_key(a, b) && !(a is String) && !(a is Linetype) ==> a == b,
        same_key(a, b) == same_key(b, a),
        a matches Value::String(s) ==> (same_key(a, b) <==> (b matches Value::String(t) && s@
            == t@)),
        a matches Value::Linetype(s) ==> (same_key(a, b) <==> (b matches Value::Linetype(t) && s@
            == t@)),
{
}

/// Which rows leave: those whose key the next frame lacks, and no others.
pub proof fn leaving_rows(prev: Seq<Value>, next: Seq<Value>, n: nat, key: Value)
    requires
        n <= prev.len(),
    ensures
        leaving(prev, next, n).contains(RowKey::Key(key)) == (exists|i: int|
            0 <= i < n && #[trigger] prev[i] == key && !has_key(next, key)),
        forall|k: int|
            0 <= k < leaving(prev, next, n).len() ==> #[trigger] leaving(prev, next, n)[k] is Key,
    decreases n,
{
    if n > 0 {
        let m = (n - 1) as nat;
        leaving_rows(prev, next, m, key);
        let before = leaving(prev, next, m);
        let all = leaving(prev, next, n);
        if !has_key(next, prev[n - 1]) {
            assert(all[before.len() as int] == RowKey::Key(prev[n - 1]));
            if before.contains(RowKey::Key(key)) {
                let k = choose|k: int| 0 <= k < before.len() && before[k] == RowKey::Key(key);
                assert(all[k] == RowKey::Key(key));
            }
            if all.contains(RowKey::Key(key)) {
                let k = choose|k: int| 0 <= k < all.len() && all[k] == RowKey::Key(key);
                if k < before.len() {
                    assert(before[k] == RowKey::Key(key));
                }
            }
            assert forall|k: int| 0 <= k < all.len() implies #[trigger] all[k] is Key by {
                if k < before.len() {
                    assert(all[k] == before[k]);
                }
            }
        }
    }
}

/// Rows that are known by their place stay where both frames have that place.
/// They enter where only the next frame does, and leave where only the previous
/// one did.
pub proof fn places_are_matched(d: Diff, prev: nat, next: nat, i: usize)
    requires
        matches_by_place(d, prev, next),
        prev <= usize::MAX,
        next <= usize::MAX,
    ensures
        d.update@.contains((i, i)) == (i < prev && i < next),
        forall|a: usize, b: usize| #[trigger] d.update@.contains((a, b)) ==> a == b,
        d.enter@.contains(i) == (prev <= i < next),
        d.exit@.contains(RowKey::Position(i)) == (next <= i < prev),
{
    let both: nat = if prev <= next {
        prev
    } else {
        next
    };
    if i < both {
        assert(d.update@[i as int] == (i, i));
    }
    if both <= i < next {
        assert(d.enter@[i - both] == i);
    }
    if both <= i < prev {
        assert(d.exit@[i - both] == RowKey::Position(i));
    }
}

/// Rows that follow each other are of one mark if they share a key, and of two if
/// they do not.
pub proof fn neighbours_share_a_mark_by_key(marks: Seq<MarkSlot>, c: DataColumn, i: int)
    requires
        are_marks_of(marks, Keys::Explicit(c)),
        0 < i < c.count() <= usize::MAX,
    ensures
        (exists|k: int|
            #![trigger marks[k]]
            0 <= k < marks.len() && marks[k].rows@.contains((i - 1) as usize)
                && marks[k].rows@.contains(i as usize)) == same_key(c.cell(i - 1), c.cell(i)),
{
    let keys = cells(c);
    let n = c.count() as int;
    assert(keys[i - 1] == c.cell(i - 1) && keys[i] == c.cell(i));
    every_row_has_a_mark(marks, keys, n, i - 1);
    let k = choose|k: int|
        #![trigger marks[k]]
        0 <= k < marks.len() && marks[k].first_row <= i - 1 < mark_end(marks, k, n);
    assert(is_run(marks, keys, n, k));
    let first = marks[k].first_row as int;
    assert(marks[k].rows@[i - 1 - first] == (i - 1) as usize);
    if same_key(c.cell(i - 1), c.cell(i)) {
        if mark_end(marks, k, n) == i {
            assert(k + 1 < marks.len());
            assert(is_run(marks, keys, n, k + 1));
            assert(breaks_before(keys, i));
        }
        assert(marks[k].rows@[i - first] == i as usize);
    } else {
        assert(breaks_before(keys, i));
        assert forall|m: int|
            #![trigger marks[m]]
            0 <= m < marks.len() && marks[m].rows@.contains((i - 1) as usize)
                && marks[m].rows@.contains(i as usize) implies false by {
            assert(is_run(marks, keys, n, m));
            let a = choose|a: int|
                0 <= a < marks[m].rows@.len() && marks[m].rows@[a] == (i - 1) as usize;
            let b = choose|b: int| 0 <= b < marks[m].rows@.len() && marks[m].rows@[b] == i as usize;
            assert(marks[m].first_row + a == i - 1);
            assert(marks[m].first_row + b == i);
        }
    }
}

/// The rows of a mark follow each other without a gap, from its first row on.
/// Without keys each row is a mark of its own.
pub proof fn marks_hold_rows_without_gaps(marks: Seq<MarkSlot>, keys: Keys, k: int)
    requires
        are_marks_of(marks, keys),
        keys.count() <= usize::MAX,
        0 <= k < marks.len(),
    ensures
        marks[k].rows@.len() > 0,
        forall|j: int|
            0 <= j < marks[k].rows@.len() ==> #[trigger] marks[k].rows@[j] == marks[k].first_row
                + j,
        keys is Positional ==> marks.len() == keys.count() && marks[k].first_row == k
            && marks[k].rows@.len() == 1,
{
    if let Keys::Explicit(c) = keys {
        assert(is_run(marks, cells(c), c.count() as int, k));
    }
}

/// A mark is known by the key of its first row: it enters if no mark of the frame
/// before was known by that key.
pub proof fn marks_enter_by_their_first_key(
    after: GeomState,
    before: GeomState,
    marks: Seq<MarkSlot>,
    p: DataColumn,
    c: DataColumn,
    j: int,
)
    requires
        diffed_in_marks(after, before, marks),
        before.prev_keys == Keys::Explicit(p),
        before.keys == Keys::Explicit(c),
        0 <= j < marks.len() <= usize::MAX,
    ensures
        exists|prev: Seq<MarkSlot>| #[trigger]
            are_marks_of(prev, Keys::Explicit(p)) && after.enter@.contains(j as usize) == !(exists|
                k: int,
            |
                0 <= k < prev.len() && same_key(
                    p.cell((#[trigger] prev[k]).first_row as int),
                    c.cell(marks[j].first_row as int),
                )),
{
    let prev = choose|prev: Seq<MarkSlot>| #[trigger]
        are_previous_marks(prev, before.prev_keys) && after.diffed_by_mark(
            before,
            first_rows_of(prev),
            first_rows_of(marks),
        );
    assert(are_marks_of(prev, Keys::Explicit(p)));
    let a = cells_at(p, first_rows_of(prev));
    let b = cells_at(c, first_rows_of(marks));
    let key = c.cell(marks[j].first_row as int);
    assert(b[j] == key);
    entering_rows(a, b, b.len(), j);
    if has_key(a, key) {
        let k = choose|k: int| 0 <= k < a.len() && #[trigger] same_key(a[k], key);
        assert(same_key(p.cell(prev[k].first_row as int), key));
    }
    if exists|k: int|
        0 <= k < prev.len() && same_key(p.cell((#[trigger] prev[k]).first_row as int), key) {
        let k = choose|k: int|
            0 <= k < prev.len() && same_key(p.cell((#[trigger] prev[k]).first_row as int), key);
        assert(same_key(a[k], key));
    }
}

} // verus!
