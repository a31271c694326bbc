//! What enters, what stays and what leaves between two frames.

use vstd::prelude::*;

use crate::value::{same_key, DataColumn, Value};

verus! {

/// What a row that left was known by.
#[derive(Debug)]
pub enum RowKey {
    /// Its place.
    Position(usize),
    /// Its key.
    Key(Value),
}

/// The rows of two frames, matched.
pub struct Diff {
    /// Rows of the next frame that the previous one does not have.
    pub enter: Vec<usize>,
    /// Rows that both frames have: previous place, next place.
    pub update: Vec<(usize, usize)>,
    /// What the rows that left were known by.
    pub exit: Vec<RowKey>,
}

/// The cells of a column.
pub open spec fn cells(c: DataColumn) -> Seq<Value> {
    Seq::new(c.count(), |i: int| c.cell(i))
}

/// Whether some value of `s` stands for the key `k`.
pub open spec fn has_key(s: Seq<Value>, k: Value) -> bool {
    exists|i: int| 0 <= i < s.len() && #[trigger] same_key(s[i], k)
}

/// Whether `i` is the first place in `s` with the key `k`.
pub open spec fn first_with_key(s: Seq<Value>, k: Value, i: int) -> bool {
    &&& 0 <= i < s.len()
    &&& same_key(s[i], k)
    &&& forall|j: int| 0 <= j < i ==> !#[trigger] same_key(s[j], k)
}

/// The first place in `s` with the key `k`.
pub open spec fn place_of_key(s: Seq<Value>, k: Value) -> int {
    choose|i: int| first_with_key(s, k, i)
}

/// The rows among the first `n` of `next` whose key `prev` lacks, in order.
pub open spec fn entering(prev: Seq<Value>, next: Seq<Value>, n: nat) -> Seq<usize>
    decreases n,
{
    if n == 0 {
        Seq::empty()
    } else {
        let before = entering(prev, next, (n - 1) as nat);
        if has_key(prev, next[n - 1]) {
            before
        } else {
            before.push((n - 1) as usize)
        }
    }
}

/// The rows among the first `n` of `next` whose key `prev` has, each behind
/// the first place of that key in `prev`, in order.
pub open spec fn staying(prev: Seq<Value>, next: Seq<Value>, n: nat) -> Seq<(usize, usize)>
    decreases n,
{
    if n == 0 {
        Seq::empty()
    } else {
        let before = staying(prev, next, (n - 1) as nat);
        if has_key(prev, next[n - 1]) {
            before.push((place_of_key(prev, next[n - 1]) as usize, (n - 1) as usize))
        } else {
            before
        }
    }
}

/// The keys of the first `n` rows of `prev` that `next` lacks, in order.
pub open spec fn leaving(prev: Seq<Value>, next: Seq<Value>, n: nat) -> Seq<RowKey>
    decreases n,
{
    if n == 0 {
        Seq::empty()
    } else {
        let before = leaving(prev, next, (n - 1) as nat);
        if has_key(next, prev[n - 1]) {
            before
        } else {
            before.push(RowKey::Key(prev[n - 1]))
        }
    }
}

/// Whether `d` matches the rows of `prev` and `next` by key.
pub open spec fn matches_by_key(d: Diff, prev: Seq<Value>, next: Seq<Value>) -> bool {
    &&& d.enter@ == entering(prev, next, next.len())
    &&& d.update@ == staying(prev, next, next.len())
    &&& d.exit@ == leaving(prev, next, prev.len())
}

/// Whether `d` matches `prev` rows with `next` rows by place.
pub open spec fn matches_by_place(d: Diff, prev: nat, next: nat) -> bool {
    let both = if prev <= next {
        prev
    } else {
        next
    };
    &&& d.update@ == Seq::new(both, |i: int| (i as usize, i as usize))
    &&& d.enter@ == Seq::new((next - both) as nat, |i: int| (both + i) as usize)
    &&& d.exit@ == Seq::new((prev - both) as nat, |i: int| RowKey::Position((both + i) as usize))
}

/// The first row of `s` whose key is `k`.
pub fn find_key(s: &Vec<Value>, k: &Value) -> (r: Option<usize>)
    ensures
        match r {
            Some(i) => first_with_key(s@, *k, i as int) && has_key(s@, *k) && i == place_of_key(
                s@,
                *k,
            ),
            None => !has_key(s@, *k),
        },
{
    let mut i: usize = 0;
    while i < s.len()
        invariant
            i <= s@.len(),
            forall|j: int| 0 <= j < i ==> !#[trigger] same_key(s@[j], *k),
        decreases s@.len() - i,
    {
        if s[i].key_eq(k) {
            proof {
                let p = place_of_key(s@, *k);
                assert(first_with_key(s@, *k, i as int));
                assert(first_with_key(s@, *k, p));
                if p < i {
                    assert(!same_key(s@[p], *k));
                } else if i < p {
                    assert(!same_key(s@[i as int], *k));
                }
            }
            return Some(i);
        }
        i = i + 1;
    }
    None
}

/// The cells of a column, copied out.
pub fn column_values(c: &DataColumn) -> (r: Vec<Value>)
    ensures
        r@ == cells(*c),
{
    let n: usize = c.len();
    let mut r: Vec<Value> = Vec::new();
    let mut i: usize = 0;
    while i < n
        invariant
            i <= n,
            n == c.count(),
            r@ == Seq::new(i as nat, |j: int| c.cell(j)),
        decreases n - i,
    {
        r.push(c.get(i));
        i = i + 1;
        assert(r@ =~= Seq::new(i as nat, |j: int| c.cell(j)));
    }
    assert(r@ =~= cells(*c));
    r
}

/// Matches two lists of keys.
pub fn diff_values(prev: &Vec<Value>, next: &Vec<Value>) -> (r: Diff)
    ensures
        matches_by_key(r, prev@, next@),
{
    let mut enter: Vec<usize> = Vec::new();
    let mut update: Vec<(usize, usize)> = Vec::new();
    let mut exit: Vec<RowKey> = Vec::new();
    let mut j: usize = 0;
    while j < next.len()
        invariant
            j <= next@.len(),
            enter@ == entering(prev@, next@, j as nat),
            update@ == staying(prev@, next@, j as nat),
        decreases next@.len() - j,
    {
        match find_key(prev, &next[j]) {
            Some(i) => update.push((i, j)),
            None => enter.push(j),
        }
        j = j + 1;
    }
    let mut i: usize = 0;
    while i < prev.len()
        invariant
            i <= prev@.len(),
            exit@ == leaving(prev@, next@, i as nat),
        decreases prev@.len() - i,
    {
        match find_key(next, &prev[i]) {
            Some(_) => {},
            None => exit.push(RowKey::Key(prev[i].copied())),
        }
        i = i + 1;
    }
    Diff { enter, update, exit }
}

/// Matches two key columns.
pub fn diff_columns(prev: &DataColumn, next: &DataColumn) -> (r: Diff)
    ensures
        matches_by_key(r, cells(*prev), cells(*next)),
{
    let p = column_values(prev);
    let n = column_values(next);
    diff_values(&p, &n)
}

/// Matches rows by place.
pub fn diff_positional(prev: usize, next: usize) -> (r: Diff)
    ensures
        matches_by_place(r, prev as nat, next as nat),
{
    let both: usize = if prev <= next {
        prev
    } else {
        next
    };
    let mut enter: Vec<usize> = Vec::new();
    let mut update: Vec<(usize, usize)> = Vec::new();
    let mut exit: Vec<RowKey> = Vec::new();
    let mut i: usize = 0;
    while i < both
        invariant
            i <= both,
            update@ == Seq::new(i as nat, |k: int| (k as usize, k as usize)),
        decreases both - i,
    {
        update.push((i, i));
        i = i + 1;
        assert(update@ =~= Seq::new(i as nat, |k: int| (k as usize, k as usize)));
    }
    let mut j: usize = both;
    while j < next
        invariant
            both <= j <= next,
            enter@ == Seq::new((j - both) as nat, |k: int| (both + k) as usize),
        decreases next - j,
    {
        enter.push(j);
        j = j + 1;
        assert(enter@ =~= Seq::new((j - both) as nat, |k: int| (both + k) as usize));
    }
    let mut k: usize = both;
    while k < prev
        invariant
            both <= k <= prev,
            exit@ == Seq::new((k - both) as nat, |m: int| RowKey::Position((both + m) as usize)),
        decreases prev - k,
    {
        exit.push(RowKey::Position(k));
        k = k + 1;
        assert(exit@ =~= Seq::new(
            (k - both) as nat,
            |m: int| RowKey::Position((both + m) as usize),
        ));
    }
    Diff { enter, update, exit }
}

proof fn lemma_place_of_key(s: Seq<Value>, k: Value)
    requires
        has_key(s, k),
    ensures
        first_with_key(s, k, place_of_key(s, k)),
{
    let w = choose|i: int| 0 <= i < s.len() && #[trigger] same_key(s[i], k);
    lemma_first_exists(s, k, w);
}

proof fn lemma_first_exists(s: Seq<Value>, k: Value, w: int)
    requires
        0 <= w < s.len(),
        same_key(s[w], k),
    ensures
        exists|i: int| first_with_key(s, k, i),
    decreases w,
{
    if exists|j: int| 0 <= j < w && #[trigger] same_key(s[j], k) {
        let j = choose|j: int| 0 <= j < w && #[trigger] same_key(s[j], k);
        lemma_first_exists(s, k, j);
    } else {
        assert(first_with_key(s, k, w));
    }
}

/// Which rows enter: those whose key the previous frame lacks.
pub proof fn entering_rows(prev: Seq<Value>, next: Seq<Value>, n: nat, j: int)
    requires
        n <= next.len() <= usize::MAX,
        0 <= j <= usize::MAX,
    ensures
        entering(prev, next, n).contains(j as usize) <==> j < n && !has_key(prev, next[j]),
    decreases n,
{
    if n > 0 {
        entering_rows(prev, next, (n - 1) as nat, j);
        let before = entering(prev, next, (n - 1) as nat);
        let after = entering(prev, next, n);
        if before.contains(j as usize) {
            let w = choose|w: int| 0 <= w < before.len() && before[w] == j as usize;
            assert(after[w] == j as usize);
        }
        if after.contains(j as usize) {
            let w = choose|w: int| 0 <= w < after.len() && after[w] == j as usize;
            if w < before.len() {
                assert(before[w] == j as usize);
            }
        }
        if j == n - 1 && !has_key(prev, next[j]) {
            assert(after[before.len() as int] == j as usize);
        }
    }
}

/// Which rows stay: those whose key the previous frame has, and each is matched
/// with the first row of that key.
pub proof fn staying_rows(prev: Seq<Value>, next: Seq<Value>, n: nat, i: int, j: int)
    requires
        n <= next.len() <= usize::MAX,
        prev.len() <= usize::MAX,
        0 <= i <= usize::MAX,
        0 <= j <= usize::MAX,
    ensures
        staying(prev, next, n).contains((i as usize, j as usize)) <==> j < n && first_with_key(
            prev,
            next[j],
            i,
        ),
    decreases n,
{
    if n > 0 {
        staying_rows(prev, next, (n - 1) as nat, i, j);
        let before = staying(prev, next, (n - 1) as nat);
        let after = staying(prev, next, n);
        let pair = (i as usize, j as usize);
        if has_key(prev, next[n - 1]) {
            lemma_place_of_key(prev, next[n - 1]);
        }
        if before.contains(pair) {
            let w = choose|w: int| 0 <= w < before.len() && before[w] == pair;
            assert(after[w] == pair);
        }
        if after.contains(pair) {
            let w = choose|w: int| 0 <= w < after.len() && after[w] == pair;
            if w < before.len() {
                assert(before[w] == pair);
            }
        }
        if j == n - 1 && first_with_key(prev, next[j], i) {
            assert(has_key(prev, next[j]));
            let p = place_of_key(prev, next[j]);
            if p < i {
                assert(!same_key(prev[p], next[j]));
            } else if i < p {
                assert(!same_key(prev[i], next[j]));
            }
            assert(after[before.len() as int] == pair);
        }
    }
}

/// Every row of the next frame either enters or is matched with a row of the
/// previous one, never both.
pub proof fn rows_enter_or_stay(d: Diff, prev: Seq<Value>, next: Seq<Value>, j: int)
    requires
        matches_by_key(d, prev, next),
        prev.len() <= usize::MAX,
        next.len() <= usize::MAX,
        0 <= j < next.len(),
    ensures
        d.enter@.contains(j as usize) <==> !(exists|i: usize|
            #[trigger] d.update@.contains((i, j as usize))),
{
    entering_rows(prev, next, next.len(), j);
    if has_key(prev, next[j]) {
        lemma_place_of_key(prev, next[j]);
        let p = place_of_key(prev, next[j]);
        staying_rows(prev, next, next.len(), p, j);
        assert(d.update@.contains((p as usize, j as usize)));
    } else {
        assert forall|i: usize| !#[trigger] d.update@.contains((i, j as usize)) by {
            staying_rows(prev, next, next.len(), i as int, j);
            if first_with_key(prev, next[j], i as int) {
                assert(has_key(prev, next[j]));
            }
        }
    }
}

/// Against an empty frame every row enters, none is matched and none leaves.
pub proof fn first_frame_all_enters(d: Diff, prev: Seq<Value>, next: Seq<Value>)
    requires
        matches_by_key(d, prev, next),
        prev.len() == 0,
        next.len() <= usize::MAX,
    ensures
        d.enter@ == Seq::new(next.len(), |i: int| i as usize),
        d.update@.len() == 0,
        d.exit@.len() == 0,
{
    lemma_all_enter(prev, next, next.len());
}

proof fn lemma_all_enter(prev: Seq<Value>, next: Seq<Value>, n: nat)
    requires
        prev.len() == 0,
        n <= next.len() <= usize::MAX,
    ensures
        entering(prev, next, n) == Seq::new(n, |i: int| i as usize),
        staying(prev, next, n).len() == 0,
    decreases n,
{
    if n > 0 {
        lemma_all_enter(prev, next, (n - 1) as nat);
    }
    assert(entering(prev, next, n) =~= Seq::new(n, |i: int| i as usize));
}

} // verus!
