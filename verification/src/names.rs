//! Names: comparing them, ordering them, and keying values by them.

use vstd::prelude::*;

verus! {

/// Whether two strings hold the same characters.
pub fn same_name(a: &str, b: &str) -> (r: bool)
    ensures
        r == (a@ == b@),
{
    a.to_owned() == b.to_owned()
}

/// Code-point order on character sequences, the order in which names sort.
pub open spec fn name_lt(a: Seq<char>, b: Seq<char>) -> bool
    decreases a.len(),
{
    if b.len() == 0 {
        false
    } else if a.len() == 0 {
        true
    } else if a[0] != b[0] {
        (a[0] as int) < (b[0] as int)
    } else {
        name_lt(a.drop_first(), b.drop_first())
    }
}

/// No name sorts before itself.
pub proof fn name_lt_irreflexive(a: Seq<char>)
    ensures
        !name_lt(a, a),
    decreases a.len(),
{
    if a.len() > 0 {
        name_lt_irreflexive(a.drop_first());
    }
}

/// Of two different names one sorts before the other.
pub proof fn name_lt_total(a: Seq<char>, b: Seq<char>)
    ensures
        name_lt(a, b) || name_lt(b, a) || a == b,
    decreases a.len(),
{
    if a.len() > 0 && b.len() > 0 {
        if a[0] == b[0] {
            name_lt_total(a.drop_first(), b.drop_first());
            if a.drop_first() == b.drop_first() {
                assert(a =~= seq![a[0]] + a.drop_first());
                assert(b =~= seq![b[0]] + b.drop_first());
            }
        }
    } else if a.len() == 0 && b.len() == 0 {
        assert(a =~= b);
    }
}

/// Name order is transitive.
pub proof fn name_lt_transitive(a: Seq<char>, b: Seq<char>, c: Seq<char>)
    requires
        name_lt(a, b),
        name_lt(b, c),
    ensures
        name_lt(a, c),
    decreases a.len(),
{
    if a.len() > 0 && a[0] == b[0] && b[0] == c[0] {
        name_lt_transitive(a.drop_first(), b.drop_first(), c.drop_first());
    }
}

/// Whether `a` sorts before `b`.
pub fn name_less(a: &str, b: &str) -> (r: bool)
    ensures
        r == name_lt(a@, b@),
{
    let la: usize = a.unicode_len();
    let lb: usize = b.unicode_len();
    let mut i: usize = 0;
    proof {
        assert(a@.skip(0) =~= a@);
        assert(b@.skip(0) =~= b@);
    }
    while i < la && i < lb
        invariant
            la == a@.len(),
            lb == b@.len(),
            i <= la,
            i <= lb,
            name_lt(a@, b@) == name_lt(a@.skip(i as int), b@.skip(i as int)),
        decreases la - i,
    {
        let ca: char = a.get_char(i);
        let cb: char = b.get_char(i);
        proof {
            assert(a@.skip(i as int).drop_first() =~= a@.skip(i + 1));
            assert(b@.skip(i as int).drop_first() =~= b@.skip(i + 1));
        }
        if ca != cb {
            return ca < cb;
        }
        i = i + 1;
    }
    i < lb
}

/// The decimal digits of `n`, most significant first.
pub open spec fn decimal_digits(n: nat) -> Seq<char>
    decreases n,
{
    if n < 10 {
        seq![digit_char(n)]
    } else {
        decimal_digits(n / 10).push(digit_char(n % 10))
    }
}

/// The character of one decimal digit.
pub open spec fn digit_char(d: nat) -> char {
    if d == 0 {
        '0'
    } else if d == 1 {
        '1'
    } else if d == 2 {
        '2'
    } else if d == 3 {
        '3'
    } else if d == 4 {
        '4'
    } else if d == 5 {
        '5'
    } else if d == 6 {
        '6'
    } else if d == 7 {
        '7'
    } else if d == 8 {
        '8'
    } else {
        '9'
    }
}

fn digit_str(d: usize) -> (r: &'static str)
    requires
        d < 10,
    ensures
        r@ == seq![digit_char(d as nat)],
{
    proof {
        reveal_strlit("0");
        reveal_strlit("1");
        reveal_strlit("2");
        reveal_strlit("3");
        reveal_strlit("4");
        reveal_strlit("5");
        reveal_strlit("6");
        reveal_strlit("7");
        reveal_strlit("8");
        reveal_strlit("9");
    }
    let r = if d == 0 {
        "0"
    } else if d == 1 {
        "1"
    } else if d == 2 {
        "2"
    } else if d == 3 {
        "3"
    } else if d == 4 {
        "4"
    } else if d == 5 {
        "5"
    } else if d == 6 {
        "6"
    } else if d == 7 {
        "7"
    } else if d == 8 {
        "8"
    } else {
        "9"
    };
    assert(r@ =~= seq![digit_char(d as nat)]);
    r
}

/// `n` written in decimal.
pub fn decimal(n: usize) -> (r: String)
    ensures
        r@ == decimal_digits(n as nat),
    decreases n,
{
    if n < 10 {
        digit_str(n).to_owned()
    } else {
        let mut head = decimal(n / 10);
        head.append(digit_str(n % 10));
        assert(head@ =~= decimal_digits((n / 10) as nat).push(digit_char((n % 10) as nat)));
        head
    }
}

/// Values keyed by name, each name at most once. Entries keep the order in
/// which their names were first inserted.
#[derive(Debug)]
pub struct NameMap<T> {
    entries: Vec<(String, T)>,
}

/// Whether no name stands twice in `s`.
pub open spec fn distinct_names<T>(s: Seq<(String, T)>) -> bool {
    forall|i: int, j: int|
        #![trigger s[i], s[j]]
        0 <= i < j < s.len() ==> s[i].0@ != s[j].0@
}

/// Whether `s` holds an entry named `k`.
pub open spec fn has_name<T>(s: Seq<(String, T)>, k: Seq<char>) -> bool {
    exists|i: int| #![trigger s[i]] 0 <= i < s.len() && s[i].0@ == k
}

/// The place of `k` in `s`.
pub open spec fn place_of<T>(s: Seq<(String, T)>, k: Seq<char>) -> int {
    choose|i: int| #![trigger s[i]] 0 <= i < s.len() && s[i].0@ == k
}

/// The map that a list of entries stands for.
pub open spec fn entry_map<T>(s: Seq<(String, T)>) -> Map<Seq<char>, T> {
    Map::new(|k: Seq<char>| has_name(s, k), |k: Seq<char>| s[place_of(s, k)].1)
}

/// The entry at a known place is the one that the map holds.
pub proof fn entry_at<T>(s: Seq<(String, T)>, i: int)
    requires
        distinct_names(s),
        0 <= i < s.len(),
    ensures
        entry_map(s).contains_key(s[i].0@),
        entry_map(s)[s[i].0@] == s[i].1,
{
    let j = place_of(s, s[i].0@);
    assert(0 <= j < s.len() && s[j].0@ == s[i].0@);
    if i < j {
        assert(s[i].0@ != s[j].0@);
    } else if j < i {
        assert(s[j].0@ != s[i].0@);
    }
}

/// As many names as entries.
pub proof fn entry_count<T>(s: Seq<(String, T)>)
    requires
        distinct_names(s),
    ensures
        entry_map(s).dom().finite(),
        entry_map(s).dom().len() == s.len(),
    decreases s.len(),
{
    if s.len() == 0 {
        assert(entry_map(s).dom() =~= Set::<Seq<char>>::empty());
    } else {
        let t = s.drop_last();
        let k = s.last().0@;
        entry_count(t);
        assert(!entry_map(t).dom().contains(k)) by {
            if has_name(t, k) {
                let j = place_of(t, k);
                assert(t[j] == s[j]);
                assert(s[s.len() - 1].0@ == k);
            }
        }
        assert(entry_map(s).dom() =~= entry_map(t).dom().insert(k)) by {
            assert forall|n: Seq<char>|
                entry_map(s).dom().contains(n) == entry_map(t).dom().insert(k).contains(n) by {
                if has_name(s, n) {
                    let j = place_of(s, n);
                    if j < t.len() {
                        assert(t[j].0@ == n);
                    }
                }
                if has_name(t, n) {
                    let j = place_of(t, n);
                    assert(s[j].0@ == n);
                }
                if n == k {
                    assert(s[s.len() - 1].0@ == n);
                }
            }
        }
    }
}

impl<T> View for NameMap<T> {
    type V = Map<Seq<char>, T>;

    closed spec fn view(&self) -> Map<Seq<char>, T> {
        entry_map(self.entries@)
    }
}

impl<T> NameMap<T> {
    #[verifier::type_invariant]
    spec fn names_are_distinct(self) -> bool {
        distinct_names(self.entries@)
    }

    /// The entries in the order of their first insertion.
    pub closed spec fn entry_seq(&self) -> Seq<(String, T)> {
        self.entries@
    }

    /// An empty map.
    pub fn new() -> (r: Self)
        ensures
            r@ == Map::<Seq<char>, T>::empty(),
            r.entry_seq().len() == 0,
    {
        let r = NameMap { entries: Vec::new() };
        assert(r@ =~= Map::<Seq<char>, T>::empty());
        r
    }

    /// The map is what its entries say, and no name stands twice.
    pub proof fn entries_are_the_map(&self)
        requires
            distinct_names(self.entry_seq()),
        ensures
            self@ == entry_map(self.entry_seq()),
            self@.dom().finite(),
            self@.dom().len() == self.entry_seq().len(),
    {
        entry_count(self.entries@);
    }

    /// How many names the map holds.
    pub fn len(&self) -> (r: usize)
        ensures
            r == self@.dom().len(),
            r == self.entry_seq().len(),
            distinct_names(self.entry_seq()),
            self@ == entry_map(self.entry_seq()),
            self@.dom().finite(),
    {
        proof {
            use_type_invariant(self);
            entry_count(self.entries@);
        }
        self.entries.len()
    }

    /// Whether the map holds no name.
    pub fn is_empty(&self) -> (r: bool)
        ensures
            r == (self@ == Map::<Seq<char>, T>::empty()),
    {
        let n: usize = self.len();
        proof {
            if n == 0 {
                assert(self@ =~= Map::<Seq<char>, T>::empty());
            }
        }
        n == 0
    }

    /// The name of the entry at place `i`.
    pub fn name_at(&self, i: usize) -> (r: &String)
        requires
            i < self.entry_seq().len(),
        ensures
            *r == self.entry_seq()[i as int].0,
    {
        &self.entries[i].0
    }

    /// The value of the entry at place `i`.
    pub fn value_at(&self, i: usize) -> (r: &T)
        requires
            i < self.entry_seq().len(),
        ensures
            *r == self.entry_seq()[i as int].1,
    {
        &self.entries[i].1
    }

    fn find(&self, name: &str) -> (r: Option<usize>)
        ensures
            match r {
                Some(i) => i < self.entries@.len() && self.entries@[i as int].0@ == name@
                    && self@.contains_key(name@) && self@[name@] == self.entries@[i as int].1,
                None => !self@.contains_key(name@),
            },
    {
        proof {
            use_type_invariant(self);
        }
        let mut i: usize = 0;
        while i < self.entries.len()
            invariant
                i <= self.entries@.len(),
                distinct_names(self.entries@),
                forall|j: int|
                    #![trigger self.entries@[j]]
                    0 <= j < i ==> self.entries@[j].0@ != name@,
            decreases self.entries@.len() - i,
        {
            if same_name(self.entries[i].0.as_str(), name) {
                proof {
                    entry_at(self.entries@, i as int);
                }
                return Some(i);
            }
            i = i + 1;
        }
        None
    }

    /// The value under `name`, if there is one.
    pub fn get(&self, name: &str) -> (r: Option<&T>)
        ensures
            match r {
                Some(v) => self@.contains_key(name@) && *v == self@[name@],
                None => !self@.contains_key(name@),
            },
    {
        match self.find(name) {
            Some(i) => Some(&self.entries[i].1),
            None => None,
        }
    }

    /// Whether `name` has a value.
    pub fn contains(&self, name: &str) -> (r: bool)
        ensures
            r == self@.contains_key(name@),
    {
        match self.find(name) {
            Some(_) => true,
            None => false,
        }
    }

    /// Puts `value` under `name` and hands back what stood there before.
    pub fn insert(&mut self, name: String, value: T) -> (r: Option<T>)
        ensures
            final(self)@ == old(self)@.insert(name@, value),
            match r {
                Some(v) => old(self)@.contains_key(name@) && v == old(self)@[name@],
                None => !old(self)@.contains_key(name@),
            },
    {
        proof {
            use_type_invariant(&*self);
        }
        let place = self.find(name.as_str());
        let ghost before = self.entries@;
        let ghost key = name@;
        let mut entries: Vec<(String, T)> = Vec::new();
        std::mem::swap(&mut entries, &mut self.entries);
        match place {
            Some(i) => {
                let taken = entries.remove(i);
                entries.insert(i, (name, value));
                proof {
                    assert(entries@ =~= before.update(i as int, (name, value)));
                    assert(distinct_names(entries@));
                    lemma_update_entry(before, i as int, (name, value));
                }
                self.entries = entries;
                Some(taken.1)
            },
            None => {
                entries.push((name, value));
                proof {
                    assert forall|i: int, j: int|
                        #![trigger entries@[i], entries@[j]]
                        0 <= i < j < entries@.len() implies entries@[i].0@ != entries@[j].0@ by {
                        if j == before.len() {
                            if before[i].0@ == key {
                                assert(has_name(before, key));
                            }
                        }
                    }
                    lemma_push_entry(before, (name, value));
                }
                self.entries = entries;
                None
            },
        }
    }

    /// Takes the entry under `name` out.
    pub fn remove(&mut self, name: &str) -> (r: Option<T>)
        ensures
            final(self)@ == old(self)@.remove(name@),
            match r {
                Some(v) => old(self)@.contains_key(name@) && v == old(self)@[name@],
                None => !old(self)@.contains_key(name@),
            },
    {
        proof {
            use_type_invariant(&*self);
        }
        let place = self.find(name);
        let ghost before = self.entries@;
        match place {
            Some(i) => {
                let mut entries: Vec<(String, T)> = Vec::new();
                std::mem::swap(&mut entries, &mut self.entries);
                let taken = entries.remove(i);
                proof {
                    assert(entries@ =~= before.remove(i as int));
                    assert(distinct_names(entries@));
                    lemma_remove_entry(before, i as int);
                }
                self.entries = entries;
                Some(taken.1)
            },
            None => {
                assert(self@.remove(name@) =~= self@);
                None
            },
        }
    }
}

/// One entry more adds one name to the map.
pub proof fn entry_prefix<T>(s: Seq<(String, T)>, i: int)
    requires
        distinct_names(s),
        0 <= i < s.len(),
    ensures
        entry_map(s.take(i + 1)) == entry_map(s.take(i)).insert(s[i].0@, s[i].1),
        !entry_map(s.take(i)).contains_key(s[i].0@),
{
    assert(s.take(i + 1) =~= s.take(i).push(s[i]));
    assert(distinct_names(s.take(i).push(s[i]))) by {
        assert forall|a: int, b: int|
            #![trigger s.take(i).push(s[i])[a], s.take(i).push(s[i])[b]]
            0 <= a < b < i + 1 implies s.take(i).push(s[i])[a].0@ != s.take(i).push(
            s[i],
        )[b].0@ by {
            assert(s[a].0@ != s[b].0@);
        }
    }
    lemma_push_entry(s.take(i), s[i]);
    if has_name(s.take(i), s[i].0@) {
        let j = place_of(s.take(i), s[i].0@);
        assert(s.take(i)[j] == s[j]);
        assert(s[j].0@ != s[i].0@);
    }
}

proof fn lemma_update_entry<T>(s: Seq<(String, T)>, i: int, e: (String, T))
    requires
        distinct_names(s),
        0 <= i < s.len(),
        s[i].0@ == e.0@,
    ensures
        entry_map(s.update(i, e)) == entry_map(s).insert(e.0@, e.1),
{
    let t = s.update(i, e);
    assert(distinct_names(t));
    entry_at(t, i);
    entry_at(s, i);
    assert forall|k: Seq<char>| has_name(t, k) == has_name(s, k) by {
        if has_name(t, k) {
            let j = place_of(t, k);
            assert(s[j].0@ == k);
        }
        if has_name(s, k) {
            let j = place_of(s, k);
            assert(t[j].0@ == k);
        }
    }
    assert forall|k: Seq<char>| has_name(t, k) && k != e.0@ implies entry_map(t)[k]
        == entry_map(s)[k] by {
        let j = place_of(t, k);
        entry_at(t, j);
        assert(s[j] == t[j]);
        entry_at(s, j);
    }
    assert(entry_map(t) =~= entry_map(s).insert(e.0@, e.1));
}

proof fn lemma_push_entry<T>(s: Seq<(String, T)>, e: (String, T))
    requires
        distinct_names(s.push(e)),
    ensures
        entry_map(s.push(e)) == entry_map(s).insert(e.0@, e.1),
{
    let t = s.push(e);
    assert forall|i: int, j: int| #![trigger s[i], s[j]] 0 <= i < j < s.len() implies s[i].0@
        != s[j].0@ by {
        assert(t[i] == s[i] && t[j] == s[j]);
    }
    entry_at(t, s.len() as int);
    assert forall|k: Seq<char>| has_name(t, k) == (has_name(s, k) || k == e.0@) by {
        if has_name(t, k) {
            let j = place_of(t, k);
            if j < s.len() {
                assert(s[j].0@ == k);
            }
        }
        if has_name(s, k) {
            let j = place_of(s, k);
            assert(t[j].0@ == k);
        }
        if k == e.0@ {
            assert(t[s.len() as int].0@ == k);
        }
    }
    assert forall|k: Seq<char>| has_name(t, k) && k != e.0@ implies entry_map(t)[k]
        == entry_map(s)[k] by {
        let j = place_of(t, k);
        assert(s[j] == t[j]);
        entry_at(s, j);
        entry_at(t, j);
    }
    assert(entry_map(t) =~= entry_map(s).insert(e.0@, e.1));
}

proof fn lemma_remove_entry<T>(s: Seq<(String, T)>, i: int)
    requires
        distinct_names(s),
        0 <= i < s.len(),
    ensures
        entry_map(s.remove(i)) == entry_map(s).remove(s[i].0@),
{
    let t = s.remove(i);
    let gone = s[i].0@;
    assert(distinct_names(t));
    assert forall|k: Seq<char>| has_name(t, k) == (has_name(s, k) && k != gone) by {
        if has_name(t, k) {
            let j = place_of(t, k);
            if j < i {
                assert(s[j].0@ == k);
                assert(s[i].0@ != s[j].0@);
            } else {
                assert(s[j + 1].0@ == k);
                assert(s[i].0@ != s[j + 1].0@);
            }
        }
        if has_name(s, k) && k != gone {
            let j = place_of(s, k);
            if j < i {
                assert(t[j].0@ == k);
            } else {
                assert(t[j - 1].0@ == k);
            }
        }
    }
    assert forall|k: Seq<char>| has_name(t, k) implies entry_map(t)[k] == entry_map(s)[k] by {
        let j = place_of(t, k);
        entry_at(t, j);
        if j < i {
            entry_at(s, j);
        } else {
            entry_at(s, j + 1);
        }
    }
    assert(entry_map(t) =~= entry_map(s).remove(gone));
}

} // verus!
