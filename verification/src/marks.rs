//! Marks: runs of rows that share a key and are drawn as one.

use vstd::prelude::*;

use crate::channel::Keys;
use crate::diff::{cells, column_values};
use crate::value::{same_key, DataColumn, Value};

verus! {

/// One mark: where its rows start, and the rows.
#[derive(Debug)]
pub struct MarkSlot {
    /// The mark's first row.
    pub first_row: usize,
    /// The mark's rows, in order.
    pub rows: Vec<usize>,
}

/// The rows `from`, `from + 1`, up to but without `to`.
pub open spec fn row_run(from: int, to: int) -> Seq<usize> {
    Seq::new((to - from) as nat, |i: int| (from + i) as usize)
}

/// Whether rows `i - 1` and `i` belong to different marks.
pub open spec fn breaks_before(keys: Seq<Value>, i: int) -> bool {
    !same_key(keys[i - 1], keys[i])
}

/// Where mark `k` ends.
pub open spec fn mark_end(marks: Seq<MarkSlot>, k: int, rows: int) -> int {
    if k + 1 < marks.len() {
        marks[k + 1].first_row as int
    } else {
        rows
    }
}

/// Whether mark `k` covers its rows up to the next mark, starts where the key
/// changes, and holds no other change of key.
pub open spec fn is_run(marks: Seq<MarkSlot>, keys: Seq<Value>, rows: int, k: int) -> bool {
    &&& marks[k].first_row < mark_end(marks, k, rows) <= rows
    &&& marks[k].rows@ == row_run(marks[k].first_row as int, mark_end(marks, k, rows))
    &&& k > 0 ==> breaks_before(keys, marks[k].first_row as int)
    &&& forall|i: int|
        marks[k].first_row < i < mark_end(marks, k, rows) ==> !#[trigger] breaks_before(keys, i)
}

/// Whether `marks` are the runs of equal keys in the first `rows` of `keys`, in
/// row order.
pub open spec fn are_runs(marks: Seq<MarkSlot>, keys: Seq<Value>, rows: int) -> bool {
    &&& (marks.len() == 0) == (rows == 0)
    &&& marks.len() > 0 ==> marks[0].first_row == 0
    &&& forall|k: int| 0 <= k < marks.len() ==> #[trigger] is_run(marks, keys, rows, k)
}

/// Whether `marks` are one mark for each of `n` rows.
pub open spec fn are_single_rows(marks: Seq<MarkSlot>, n: int) -> bool {
    &&& marks.len() == n
    &&& forall|k: int|
        #![trigger marks[k]]
        0 <= k < n ==> marks[k].first_row == k && marks[k].rows@ == row_run(k, k + 1)
}

/// Whether `marks` are the marks of `keys`.
pub open spec fn are_marks_of(marks: Seq<MarkSlot>, keys: Keys) -> bool {
    match keys {
        Keys::Positional(n) => are_single_rows(marks, n as int),
        Keys::Explicit(c) => are_runs(marks, cells(c), c.count() as int),
    }
}

fn run_of_rows(from: usize, to: usize) -> (r: Vec<usize>)
    requires
        from <= to,
    ensures
        r@ == row_run(from as int, to as int),
{
    let mut r: Vec<usize> = Vec::new();
    let mut i: usize = from;
    while i < to
        invariant
            from <= i <= to,
            r@ == row_run(from as int, i as int),
        decreases to - i,
    {
        r.push(i);
        i = i + 1;
        assert(r@ =~= row_run(from as int, i as int));
    }
    r
}

/// The marks of a key column: each contiguous run of equal keys is one.
pub fn build_marks_from_column(col: &DataColumn) -> (r: Vec<MarkSlot>)
    ensures
        are_runs(r@, cells(*col), col.count() as int),
{
    let keys = column_values(col);
    let n: usize = keys.len();
    let mut marks: Vec<MarkSlot> = Vec::new();
    if n == 0 {
        return marks;
    }
    let mut start: usize = 0;
    let mut i: usize = 1;
    while i < n
        invariant
            1 <= i <= n,
            start < i,
            n == keys@.len(),
            keys@ == cells(*col),
            marks@.len() == 0 ==> start == 0,
            marks@.len() > 0 ==> marks@[0].first_row == 0 && breaks_before(keys@, start as int),
            forall|j: int| start < j < i ==> !#[trigger] breaks_before(keys@, j),
            forall|k: int|
                0 <= k < marks@.len() ==> #[trigger] is_run(marks@, keys@, start as int, k),
        decreases n - i,
    {
        if !keys[i - 1].key_eq(&keys[i]) {
            let ghost before = marks@;
            let ghost old_start = start as int;
            marks.push(MarkSlot { first_row: start, rows: run_of_rows(start, i) });
            start = i;
            proof {
                assert forall|k: int| 0 <= k < marks@.len() implies #[trigger] is_run(
                    marks@,
                    keys@,
                    start as int,
                    k,
                ) by {
                    if k < before.len() {
                        assert(is_run(before, keys@, old_start, k));
                        assert(marks@[k] == before[k]);
                        assert(mark_end(marks@, k, start as int) == mark_end(
                            before,
                            k,
                            old_start,
                        ));
                    }
                }
            }
        }
        i = i + 1;
    }
    let ghost before = marks@;
    marks.push(MarkSlot { first_row: start, rows: run_of_rows(start, n) });
    proof {
        assert forall|k: int| 0 <= k < marks@.len() implies #[trigger] is_run(
            marks@,
            keys@,
            n as int,
            k,
        ) by {
            if k < before.len() {
                assert(is_run(before, keys@, start as int, k));
                assert(marks@[k] == before[k]);
                assert(mark_end(marks@, k, n as int) == mark_end(before, k, start as int));
            }
        }
    }
    marks
}

/// The marks of a geom's keys: each contiguous run of equal keys is one, and a
/// row without an explicit key is one by itself.
pub fn build_marks(keys: &Keys) -> (r: Vec<MarkSlot>)
    ensures
        are_marks_of(r@, *keys),
{
    match keys {
        Keys::Explicit(c) => build_marks_from_column(c),
        Keys::Positional(n) => {
            let mut marks: Vec<MarkSlot> = Vec::new();
            let mut i: usize = 0;
            while i < *n
                invariant
                    i <= *n,
                    are_single_rows(marks@, i as int),
                decreases *n - i,
            {
                marks.push(MarkSlot { first_row: i, rows: run_of_rows(i, i + 1) });
                i = i + 1;
            }
            marks
        },
    }
}

/// The first rows of `marks`.
pub open spec fn first_rows_of(marks: Seq<MarkSlot>) -> Seq<usize> {
    Seq::new(marks.len(), |k: int| marks[k].first_row)
}

/// The first rows of `marks`.
pub fn first_rows(marks: &Vec<MarkSlot>) -> (r: Vec<usize>)
    ensures
        r@ == first_rows_of(marks@),
{
    let mut r: Vec<usize> = Vec::new();
    let mut i: usize = 0;
    while i < marks.len()
        invariant
            i <= marks@.len(),
            r@ == Seq::new(i as nat, |k: int| marks@[k].first_row),
        decreases marks@.len() - i,
    {
        r.push(marks[i].first_row);
        i = i + 1;
        assert(r@ =~= Seq::new(i as nat, |k: int| marks@[k].first_row));
    }
    assert(r@ =~= first_rows_of(marks@));
    r
}

/// The cells of `c` in the given rows.
pub open spec fn cells_at(c: DataColumn, rows: Seq<usize>) -> Seq<Value> {
    Seq::new(rows.len(), |k: int| c.cell(rows[k] as int))
}

/// The cells of a key column in the first row of each mark.
pub fn unique_values_at_first_rows(col: &DataColumn, rows: &[usize]) -> (r: Vec<Value>)
    ensures
        r@ == cells_at(*col, rows@),
{
    let mut r: Vec<Value> = Vec::new();
    let mut i: usize = 0;
    while i < rows.len()
        invariant
            i <= rows@.len(),
            r@ == Seq::new(i as nat, |k: int| col.cell(rows@[k] as int)),
        decreases rows@.len() - i,
    {
        r.push(col.get(rows[i]));
        i = i + 1;
        assert(r@ =~= Seq::new(i as nat, |k: int| col.cell(rows@[k] as int)));
    }
    assert(r@ =~= cells_at(*col, rows@));
    r
}

/// Every row belongs to some mark.
pub proof fn every_row_has_a_mark(marks: Seq<MarkSlot>, keys: Seq<Value>, rows: int, i: int)
    requires
        are_runs(marks, keys, rows),
        0 <= i < rows,
    ensures
        exists|k: int|
            #![trigger marks[k]]
            0 <= k < marks.len() && marks[k].first_row <= i < mark_end(marks, k, rows),
{
    lemma_mark_search(marks, keys, rows, i, (marks.len() - 1) as nat);
}

proof fn lemma_mark_search(marks: Seq<MarkSlot>, keys: Seq<Value>, rows: int, i: int, k: nat)
    requires
        are_runs(marks, keys, rows),
        k < marks.len(),
        0 <= i < mark_end(marks, k as int, rows),
    ensures
        exists|m: int|
            #![trigger marks[m]]
            0 <= m < marks.len() && marks[m].first_row <= i < mark_end(marks, m, rows),
    decreases k,
{
    assert(is_run(marks, keys, rows, k as int));
    if marks[k as int].first_row > i {
        lemma_mark_search(marks, keys, rows, i, (k - 1) as nat);
    }
}

/// One shared key makes one mark of all the rows.
pub proof fn shared_key_makes_one_mark(marks: Seq<MarkSlot>, keys: Seq<Value>, rows: int)
    requires
        are_runs(marks, keys, rows),
        rows > 0,
        forall|i: int| 0 < i < rows ==> !#[trigger] breaks_before(keys, i),
    ensures
        marks.len() == 1,
        marks[0].rows@ == row_run(0, rows),
{
    if marks.len() > 1 {
        assert(is_run(marks, keys, rows, 1));
        assert(is_run(marks, keys, rows, 0));
        assert(breaks_before(keys, marks[1].first_row as int));
    } else {
        assert(is_run(marks, keys, rows, 0));
    }
}

/// Keys have one set of marks only: two that are both their marks have the same
/// number of marks, and the same first row for each.
pub proof fn marks_are_determined(a: Seq<MarkSlot>, b: Seq<MarkSlot>, keys: Seq<Value>, rows: int)
    requires
        are_runs(a, keys, rows),
        are_runs(b, keys, rows),
    ensures
        a.len() == b.len(),
        forall|k: int|
            #![trigger a[k]]
            #![trigger b[k]]
            0 <= k < a.len() ==> a[k].first_row == b[k].first_row && a[k].rows@ == b[k].rows@,
{
    if rows != 0 {
        if a.len() <= b.len() {
            lemma_same_starts(a, b, keys, rows, a.len());
        } else {
            lemma_same_starts(b, a, keys, rows, b.len());
        }
        let n = if a.len() <= b.len() {
            a.len()
        } else {
            b.len()
        };
        assert(is_run(a, keys, rows, n - 1));
        assert(is_run(b, keys, rows, n - 1));
        if a.len() < b.len() {
            assert(is_run(b, keys, rows, n as int));
            assert(breaks_before(keys, b[n as int].first_row as int));
        }
        if b.len() < a.len() {
            assert(is_run(a, keys, rows, n as int));
            assert(breaks_before(keys, a[n as int].first_row as int));
        }
        assert forall|k: int| 0 <= k < n implies a[k].rows@ == #[trigger] b[k].rows@ by {
            assert(is_run(a, keys, rows, k));
            assert(is_run(b, keys, rows, k));
            assert(a[k].first_row == b[k].first_row);
            if k + 1 < n {
                assert(a[k + 1].first_row == b[k + 1].first_row);
            }
        }
    }
}

proof fn lemma_same_starts(a: Seq<MarkSlot>, b: Seq<MarkSlot>, keys: Seq<Value>, rows: int, n: nat)
    requires
        are_runs(a, keys, rows),
        are_runs(b, keys, rows),
        n <= a.len() <= b.len(),
    ensures
        forall|k: int|
            #![trigger a[k]]
            #![trigger b[k]]
            0 <= k < n ==> a[k].first_row == b[k].first_row,
    decreases n,
{
    if n > 1 {
        let m = (n - 1) as nat;
        lemma_same_starts(a, b, keys, rows, m);
        assert(is_run(a, keys, rows, m - 1));
        assert(is_run(b, keys, rows, m - 1));
        assert(is_run(a, keys, rows, m as int));
        assert(is_run(b, keys, rows, m as int));
        assert(a[m - 1].first_row == b[m - 1].first_row);
        if a[m as int].first_row < b[m as int].first_row {
            assert(breaks_before(keys, a[m as int].first_row as int));
        }
        if b[m as int].first_row < a[m as int].first_row {
            assert(breaks_before(keys, b[m as int].first_row as int));
        }
    }
}

} // verus!
