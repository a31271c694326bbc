//! Numbers in order.

use vstd::prelude::*;

use crate::num::Num;

verus! {

/// The numbers of `s` in ascending order; equal ones keep their order.
pub open spec fn ascending(s: Seq<Num>) -> Seq<Num>
    decreases s.len(),
{
    if s.len() == 0 {
        s
    } else {
        insert_ascending(ascending(s.drop_last()), s.last())
    }
}

/// `s` with `n` behind the last number that does not come after it.
pub open spec fn insert_ascending(s: Seq<Num>, n: Num) -> Seq<Num>
    decreases s.len(),
{
    if s.len() == 0 || s.last().rank() <= n.rank() {
        s.push(n)
    } else {
        insert_ascending(s.drop_last(), n).push(s.last())
    }
}

/// The numbers of `v` in ascending order.
pub fn sorted(v: &Vec<Num>) -> (r: Vec<Num>)
    ensures
        r@ == ascending(v@),
{
    let mut r: Vec<Num> = Vec::new();
    let mut i: usize = 0;
    proof {
        assert(v@.take(0) =~= Seq::<Num>::empty());
    }
    while i < v.len()
        invariant
            i <= v@.len(),
            r@ == ascending(v@.take(i as int)),
        decreases v@.len() - i,
    {
        let n: Num = v[i];
        let ghost before = r@;
        let mut at: usize = r.len();
        proof {
            assert(before.take(at as int) =~= before);
            assert(before.skip(at as int) =~= Seq::<Num>::empty());
            assert(insert_ascending(before, n) =~= insert_ascending(before.take(at as int), n)
                + before.skip(at as int));
        }
        while at > 0 && n.comes_before(r[at - 1])
            invariant
                at <= r@.len(),
                r@ == before,
                insert_ascending(before, n) == insert_ascending(before.take(at as int), n)
                    + before.skip(at as int),
            decreases at,
        {
            proof {
                let t = before.take(at as int);
                assert(t.drop_last() =~= before.take(at - 1));
                assert(t.last() == before[at - 1]);
                assert(insert_ascending(t, n) == insert_ascending(t.drop_last(), n).push(t.last()));
                assert(insert_ascending(before.take(at - 1), n).push(t.last()) + before.skip(
                    at as int,
                ) =~= insert_ascending(before.take(at - 1), n) + before.skip(at - 1));
            }
            at = at - 1;
        }
        proof {
            let t = before.take(at as int);
            if at > 0 {
                assert(t.last() == before[at - 1]);
            }
            assert(insert_ascending(t, n) == t.push(n));
            assert(t.push(n) + before.skip(at as int) =~= before.insert(at as int, n));
            assert(v@.take(i + 1).drop_last() =~= v@.take(i as int));
            assert(v@.take(i + 1).last() == n);
        }
        r.insert(at, n);
        i = i + 1;
    }
    assert(v@.take(i as int) =~= v@);
    r
}

/// Whether numbers stand in ascending order.
pub open spec fn is_ascending(s: Seq<Num>) -> bool {
    forall|i: int, j: int|
        0 <= i <= j < s.len() ==> (#[trigger] s[i]).rank() <= (#[trigger] s[j]).rank()
}

proof fn insert_keeps_numbers(s: Seq<Num>, n: Num)
    ensures
        insert_ascending(s, n).len() == s.len() + 1,
        insert_ascending(s, n).to_multiset() == s.to_multiset().insert(n),
        is_ascending(s) ==> is_ascending(insert_ascending(s, n)),
        s.len() > 0 ==> insert_ascending(s, n).last().rank() == (if s.last().rank() <= n.rank() {
            n.rank()
        } else {
            s.last().rank()
        }),
    decreases s.len(),
{
    s.to_multiset_ensures();
    if s.len() > 0 && !(s.last().rank() <= n.rank()) {
        let t = s.drop_last();
        insert_keeps_numbers(t, n);
        let u = insert_ascending(t, n);
        u.to_multiset_ensures();
        t.to_multiset_ensures();
        assert(s =~= t.push(s.last()));
        assert(u.push(s.last()).to_multiset() =~= s.to_multiset().insert(n));
        if is_ascending(s) {
            let w = u.push(s.last());
            if t.len() > 0 {
                assert(s[t.len() - 1].rank() <= s[t.len() as int].rank());
            } else {
                assert(t.push(n)[0] == n);
            }
            assert forall|i: int, j: int| 0 <= i <= j < w.len() implies (#[trigger] w[i]).rank() <= (
            #[trigger] w[j]).rank() by {
                assert(u[u.len() - 1].rank() <= s.last().rank());
                if j == u.len() && i < u.len() {
                    assert(u[i].rank() <= u[u.len() - 1].rank());
                }
            }
        }
    }
}

/// Sorting keeps every number as often as it was there, and puts the numbers in
/// ascending order.
pub proof fn sorting_keeps_numbers(s: Seq<Num>)
    ensures
        ascending(s).len() == s.len(),
        ascending(s).to_multiset() == s.to_multiset(),
        is_ascending(ascending(s)),
    decreases s.len(),
{
    s.to_multiset_ensures();
    if s.len() > 0 {
        let t = s.drop_last();
        t.to_multiset_ensures();
        sorting_keeps_numbers(t);
        insert_keeps_numbers(ascending(t), s.last());
        assert(s =~= t.push(s.last()));
    }
}

/// Whether numbers are finite, and no two of them are one.
pub open spec fn are_distinct(s: Seq<Num>) -> bool {
    &&& forall|i: int| 0 <= i < s.len() ==> (#[trigger] s[i]).finite()
    &&& forall|i: int, j: int|
        0 <= i < j < s.len() ==> (#[trigger] s[i]).value() != (#[trigger] s[j]).value()
}

/// Numbers of which no two are one rise once they are sorted.
pub proof fn sorted_numbers_rise(s: Seq<Num>, i: int, j: int)
    requires
        are_distinct(s),
        0 <= i < j < s.len(),
    ensures
        ascending(s)[i].value() < ascending(s)[j].value(),
{
    let a = ascending(s);
    sorting_keeps_numbers(s);
    s.to_multiset_ensures();
    a.to_multiset_ensures();
    assert(s.no_duplicates());
    s.lemma_multiset_has_no_duplicates();
    a.lemma_multiset_has_no_duplicates_conv();
    assert(a.contains(a[i]) && a.contains(a[j]));
    assert(s.to_multiset().contains(a[i]) && s.to_multiset().contains(a[j]));
    let x = choose|x: int| 0 <= x < s.len() && s[x] == a[i];
    let y = choose|y: int| 0 <= y < s.len() && s[y] == a[j];
    assert(s[x].value() != s[y].value());
    crate::num::rank_is_value_order(a[i], a[j]);
    crate::num::rank_is_value_order(a[j], a[i]);
}

/// How many of the numbers have a property.
pub open spec fn count_where(s: Seq<Num>, has: spec_fn(Num) -> bool) -> nat
    decreases s.len(),
{
    if s.len() == 0 {
        0
    } else if has(s.last()) {
        count_where(s.drop_last(), has) + 1
    } else {
        count_where(s.drop_last(), has)
    }
}

proof fn insert_keeps_counts(s: Seq<Num>, n: Num, has: spec_fn(Num) -> bool)
    ensures
        count_where(insert_ascending(s, n), has) == count_where(s.push(n), has),
    decreases s.len(),
{
    if s.len() > 0 && !(s.last().rank() <= n.rank()) {
        let t = s.drop_last();
        insert_keeps_counts(t, n, has);
        let u = insert_ascending(t, n);
        reveal_with_fuel(count_where, 3);
        assert(u.push(s.last()).drop_last() =~= u);
        assert(s.push(n).drop_last() =~= s);
        assert(t.push(n).drop_last() =~= t);
    }
}

/// Sorting keeps how many numbers have a property.
pub proof fn sorting_keeps_counts(s: Seq<Num>, has: spec_fn(Num) -> bool)
    ensures
        count_where(ascending(s), has) == count_where(s, has),
    decreases s.len(),
{
    if s.len() > 0 {
        let t = s.drop_last();
        sorting_keeps_counts(t, has);
        insert_keeps_counts(ascending(t), s.last(), has);
        assert(ascending(t).push(s.last()).drop_last() =~= ascending(t));
    }
}

} // verus!
