//! A map from strings to strings that keeps its entries in lexical order of
//! their keys, so that walking it gives one order whatever the order of the
//! insertions was.
use vstd::prelude::*;
use vstd::string::*;
use crate::text::{compare_str, lemma_str_lt_asymmetric, lemma_str_lt_transitive, str_lt, Rank};

verus! {

/// The keys of `s` strictly ascend.
pub open spec fn sorted(s: Seq<(Seq<char>, Seq<char>)>) -> bool {
    forall|i: int, j: int| 0 <= i < j < s.len() ==> str_lt((#[trigger] s[i]).0, (#[trigger] s[j]).0)
}

/// Some entry of `s` has the key `k`.
pub open spec fn has_key(s: Seq<(Seq<char>, Seq<char>)>, k: Seq<char>) -> bool {
    exists|i: int| 0 <= i < s.len() && (#[trigger] s[i]).0 == k
}

/// The place of an entry of `s` with the key `k`.
pub open spec fn index_of(s: Seq<(Seq<char>, Seq<char>)>, k: Seq<char>) -> int {
    choose|i: int| 0 <= i < s.len() && (#[trigger] s[i]).0 == k
}

/// The map that a list of entries stands for.
pub open spec fn to_map(s: Seq<(Seq<char>, Seq<char>)>) -> Map<Seq<char>, Seq<char>> {
    Map::new(|k: Seq<char>| has_key(s, k), |k: Seq<char>| s[index_of(s, k)].1)
}

/// In a sorted list every entry is the one found under its key.
pub proof fn lemma_sorted_index(s: Seq<(Seq<char>, Seq<char>)>, i: int)
    requires
        sorted(s),
        0 <= i < s.len(),
    ensures
        has_key(s, s[i].0),
        index_of(s, s[i].0) == i,
        to_map(s).contains_key(s[i].0),
        to_map(s)[s[i].0] == s[i].1,
{
    let k = s[i].0;
    assert(has_key(s, k));
    let j = index_of(s, k);
    if j < i {
        assert(str_lt(s[j].0, s[i].0));
        lemma_str_lt_asymmetric(s[j].0, s[i].0);
    } else if i < j {
        assert(str_lt(s[i].0, s[j].0));
        lemma_str_lt_asymmetric(s[i].0, s[j].0);
    }
}

/// Dropping the first entry of a sorted list removes its key from the map.
pub proof fn lemma_to_map_tail(s: Seq<(Seq<char>, Seq<char>)>)
    requires
        sorted(s),
        s.len() > 0,
    ensures
        sorted(s.drop_first()),
        to_map(s.drop_first()) == to_map(s).remove(s[0].0),
{
    let t = s.drop_first();
    assert forall|i: int, j: int| 0 <= i < j < t.len() implies str_lt(
        (#[trigger] t[i]).0,
        (#[trigger] t[j]).0,
    ) by {
        assert(t[i] == s[i + 1]);
        assert(t[j] == s[j + 1]);
    }
    assert forall|k: Seq<char>| has_key(t, k) <==> (has_key(s, k) && k != s[0].0) by {
        if has_key(t, k) {
            let i = index_of(t, k);
            assert(s[i + 1].0 == k);
            assert(str_lt(s[0].0, s[i + 1].0));
            lemma_str_lt_asymmetric(s[0].0, s[i + 1].0);
        }
        if has_key(s, k) && k != s[0].0 {
            let i = index_of(s, k);
            assert(t[i - 1].0 == k);
        }
    }
    assert forall|k: Seq<char>| has_key(t, k) implies t[index_of(t, k)].1 == s[index_of(s, k)].1 by {
        let i = index_of(t, k);
        assert(t[i] == s[i + 1]);
        lemma_sorted_index(s, i + 1);
    }
    assert(to_map(t) =~= to_map(s).remove(s[0].0));
}

/// A sorted list of entries is determined by the map it stands for.
pub proof fn lemma_to_map_unique(a: Seq<(Seq<char>, Seq<char>)>, b: Seq<(Seq<char>, Seq<char>)>)
    requires
        sorted(a),
        sorted(b),
        to_map(a) == to_map(b),
    ensures
        a == b,
    decreases a.len(),
{
    if a.len() == 0 {
        if b.len() > 0 {
            lemma_sorted_index(b, 0);
            assert(to_map(a).contains_key(b[0].0));
            assert(has_key(a, b[0].0));
        }
        assert(a =~= b);
    } else {
        lemma_sorted_index(a, 0);
        assert(to_map(b).contains_key(a[0].0));
        assert(has_key(b, a[0].0));
        let j = index_of(b, a[0].0);
        lemma_sorted_index(b, 0);
        assert(to_map(a).contains_key(b[0].0));
        assert(has_key(a, b[0].0));
        let i = index_of(a, b[0].0);
        if j > 0 {
            assert(str_lt(b[0].0, b[j].0));
            lemma_str_lt_asymmetric(b[0].0, a[0].0);
            if i > 0 {
                assert(str_lt(a[0].0, a[i].0));
            }
        }
        assert(a[0].0 == b[0].0);
        assert(a[0].1 == b[0].1);
        assert(a[0] == b[0]);
        lemma_to_map_tail(a);
        lemma_to_map_tail(b);
        lemma_to_map_unique(a.drop_first(), b.drop_first());
        assert forall|x: int| 0 <= x < a.len() implies a[x] == b[x] by {
            if x > 0 {
                assert(a[x] == a.drop_first()[x - 1]);
                assert(b[x] == b.drop_first()[x - 1]);
            }
        }
        assert(a.len() == a.drop_first().len() + 1);
        assert(b.len() == b.drop_first().len() + 1);
        assert(a =~= b);
    }
}

/// The keys of a list of entries, in the order of the list.
pub open spec fn keys_of(s: Seq<(Seq<char>, Seq<char>)>) -> Seq<Seq<char>> {
    Seq::new(s.len(), |i: int| s[i].0)
}

/// Sorted lists of entries with the same set of keys have the same keys
/// in the same order.
pub proof fn lemma_same_keys(a: Seq<(Seq<char>, Seq<char>)>, b: Seq<(Seq<char>, Seq<char>)>)
    requires
        sorted(a),
        sorted(b),
        to_map(a).dom() == to_map(b).dom(),
    ensures
        keys_of(a) == keys_of(b),
    decreases a.len(),
{
    if a.len() == 0 {
        if b.len() > 0 {
            lemma_sorted_index(b, 0);
            assert(to_map(a).dom().contains(b[0].0));
            assert(has_key(a, b[0].0));
        }
        assert(keys_of(a) =~= keys_of(b));
    } else {
        lemma_sorted_index(a, 0);
        assert(to_map(b).dom().contains(a[0].0));
        assert(has_key(b, a[0].0));
        let j = index_of(b, a[0].0);
        lemma_sorted_index(b, 0);
        assert(to_map(a).dom().contains(b[0].0));
        assert(has_key(a, b[0].0));
        let i = index_of(a, b[0].0);
        if j > 0 {
            assert(str_lt(b[0].0, b[j].0));
            lemma_str_lt_asymmetric(b[0].0, a[0].0);
            if i > 0 {
                assert(str_lt(a[0].0, a[i].0));
            }
        }
        assert(a[0].0 == b[0].0);
        lemma_to_map_tail(a);
        lemma_to_map_tail(b);
        assert(to_map(a.drop_first()).dom() =~= to_map(b.drop_first()).dom());
        lemma_same_keys(a.drop_first(), b.drop_first());
        let ka = keys_of(a.drop_first());
        let kb = keys_of(b.drop_first());
        assert(ka.len() == kb.len());
        assert forall|x: int| 0 <= x < a.len() implies keys_of(a)[x] == keys_of(b)[x] by {
            if x > 0 {
                assert(ka[x - 1] == a.drop_first()[x - 1].0);
                assert(kb[x - 1] == b.drop_first()[x - 1].0);
                assert(a[x] == a.drop_first()[x - 1]);
                assert(b[x] == b.drop_first()[x - 1]);
            }
        }
        assert(keys_of(a) =~= keys_of(b));
    }
}

/// The sorted list of entries that stands for the map `m`.
pub open spec fn entries_of(m: Map<Seq<char>, Seq<char>>) -> Seq<(Seq<char>, Seq<char>)> {
    choose|s: Seq<(Seq<char>, Seq<char>)>| sorted(s) && to_map(s) == m
}

/// A sorted list is the sorted list of its map.
pub proof fn lemma_entries_of(s: Seq<(Seq<char>, Seq<char>)>)
    requires
        sorted(s),
    ensures
        entries_of(to_map(s)) == s,
{
    let t = entries_of(to_map(s));
    lemma_to_map_unique(t, s);
}

/// The key `k` lies strictly between the entries before `p` and those from
/// `p` on.
pub open spec fn splits_at(s: Seq<(Seq<char>, Seq<char>)>, p: int, k: Seq<char>) -> bool {
    &&& 0 <= p <= s.len()
    &&& forall|i: int| 0 <= i < p ==> str_lt((#[trigger] s[i]).0, k)
    &&& forall|i: int| p <= i < s.len() ==> str_lt(k, (#[trigger] s[i]).0)
}

/// A key that splits a sorted list is not in it.
pub proof fn lemma_split_absent(s: Seq<(Seq<char>, Seq<char>)>, p: int, k: Seq<char>)
    requires
        sorted(s),
        splits_at(s, p, k),
    ensures
        !has_key(s, k),
        !to_map(s).contains_key(k),
{
    if has_key(s, k) {
        let i = index_of(s, k);
        if i < p {
            lemma_str_lt_asymmetric(s[i].0, k);
        } else {
            lemma_str_lt_asymmetric(k, s[i].0);
        }
    }
}

/// Putting a new key at the place where it splits a sorted list keeps the
/// list sorted and adds the key to the map.
pub proof fn lemma_insert_new(s: Seq<(Seq<char>, Seq<char>)>, p: int, k: Seq<char>, v: Seq<char>)
    requires
        sorted(s),
        splits_at(s, p, k),
    ensures
        sorted(s.insert(p, (k, v))),
        to_map(s.insert(p, (k, v))) == to_map(s).insert(k, v),
{
    let t = s.insert(p, (k, v));
    assert forall|i: int, j: int| 0 <= i < j < t.len() implies str_lt(
        (#[trigger] t[i]).0,
        (#[trigger] t[j]).0,
    ) by {
        if j < p {
            assert(t[i] == s[i] && t[j] == s[j]);
        } else if j == p {
            assert(t[i] == s[i]);
        } else if i < p {
            assert(t[i] == s[i] && t[j] == s[j - 1]);
            if j - 1 == i {
                lemma_str_lt_transitive(s[i].0, k, s[j - 1].0);
            }
        } else if i == p {
            assert(t[j] == s[j - 1]);
        } else {
            assert(t[i] == s[i - 1] && t[j] == s[j - 1]);
        }
    }
    assert forall|x: Seq<char>| has_key(t, x) <==> (has_key(s, x) || x == k) by {
        if has_key(t, x) {
            let i = index_of(t, x);
            if i < p {
                assert(s[i].0 == x);
            } else if i > p {
                assert(s[i - 1].0 == x);
            }
        }
        if has_key(s, x) {
            let i = index_of(s, x);
            if i < p {
                assert(t[i].0 == x);
            } else {
                assert(t[i + 1].0 == x);
            }
        }
        if x == k {
            assert(t[p].0 == x);
        }
    }
    assert forall|x: Seq<char>| has_key(t, x) implies t[index_of(t, x)].1 == to_map(s).insert(
        k,
        v,
    )[x] by {
        let i = index_of(t, x);
        lemma_sorted_index(t, i);
        if i < p {
            assert(t[i] == s[i]);
            lemma_sorted_index(s, i);
            lemma_str_lt_asymmetric(s[i].0, k);
        } else if i > p {
            assert(t[i] == s[i - 1]);
            lemma_sorted_index(s, i - 1);
            lemma_str_lt_asymmetric(k, s[i - 1].0);
        }
    }
    assert(to_map(t) =~= to_map(s).insert(k, v));
}

/// Replacing the value of an entry keeps the list sorted and replaces the
/// value in the map.
pub proof fn lemma_replace(s: Seq<(Seq<char>, Seq<char>)>, p: int, v: Seq<char>)
    requires
        sorted(s),
        0 <= p < s.len(),
    ensures
        sorted(s.update(p, (s[p].0, v))),
        to_map(s.update(p, (s[p].0, v))) == to_map(s).insert(s[p].0, v),
{
    let k = s[p].0;
    let t = s.update(p, (k, v));
    assert forall|i: int, j: int| 0 <= i < j < t.len() implies str_lt(
        (#[trigger] t[i]).0,
        (#[trigger] t[j]).0,
    ) by {
        assert(t[i].0 == s[i].0 && t[j].0 == s[j].0);
    }
    assert forall|x: Seq<char>| has_key(t, x) <==> (has_key(s, x) || x == k) by {
        if has_key(t, x) {
            let i = index_of(t, x);
            assert(s[i].0 == x);
        }
        if has_key(s, x) {
            let i = index_of(s, x);
            assert(t[i].0 == x);
        }
        if x == k {
            assert(t[p].0 == x);
        }
    }
    assert forall|x: Seq<char>| has_key(t, x) implies t[index_of(t, x)].1 == to_map(s).insert(
        k,
        v,
    )[x] by {
        let i = index_of(t, x);
        lemma_sorted_index(t, i);
        if i != p {
            assert(t[i] == s[i]);
            lemma_sorted_index(s, i);
            lemma_sorted_index(s, p);
        }
    }
    assert(to_map(t) =~= to_map(s).insert(k, v));
}

/// The map `m` is that of a list of entries: it holds finitely many.
pub open spec fn is_listed(m: Map<Seq<char>, Seq<char>>) -> bool {
    exists|s: Seq<(Seq<char>, Seq<char>)>| sorted(s) && #[trigger] to_map(s) == m
}

/// The place where the key `k` would be put into the sorted list `s`.
pub open spec fn split_point(s: Seq<(Seq<char>, Seq<char>)>, k: Seq<char>) -> int
    decreases s.len(),
{
    if s.len() == 0 {
        0
    } else if str_lt(s.last().0, k) {
        s.len() as int
    } else {
        split_point(s.drop_last(), k)
    }
}

/// A key that is not in a sorted list splits it at its split point.
pub proof fn lemma_split_point(s: Seq<(Seq<char>, Seq<char>)>, k: Seq<char>)
    requires
        sorted(s),
        !has_key(s, k),
    ensures
        splits_at(s, split_point(s, k), k),
    decreases s.len(),
{
    if s.len() > 0 {
        let n = s.len() - 1;
        let last = s[n].0;
        assert(last != k) by {
            if last == k {
                assert(s[n].0 == k);
            }
        }
        if str_lt(last, k) {
            assert forall|i: int| 0 <= i < s.len() implies str_lt((#[trigger] s[i]).0, k) by {
                if i < n {
                    assert(str_lt(s[i].0, s[n].0));
                    lemma_str_lt_transitive(s[i].0, last, k);
                }
            }
        } else {
            crate::text::law_key_order(last, k, k);
            let head = s.drop_last();
            assert forall|i: int, j: int| 0 <= i < j < head.len() implies str_lt(
                (#[trigger] head[i]).0,
                (#[trigger] head[j]).0,
            ) by {
                assert(head[i] == s[i] && head[j] == s[j]);
            }
            assert(!has_key(head, k)) by {
                if has_key(head, k) {
                    let i = index_of(head, k);
                    assert(s[i].0 == k);
                }
            }
            lemma_split_point(head, k);
            let p = split_point(head, k);
            assert forall|i: int| 0 <= i < p implies str_lt((#[trigger] s[i]).0, k) by {
                assert(s[i] == head[i]);
            }
            assert forall|i: int| p <= i < s.len() implies str_lt(k, (#[trigger] s[i]).0) by {
                if i < n {
                    assert(s[i] == head[i]);
                }
            }
        }
    }
}

/// A map of a list with one more entry put in is again that of a list.
pub proof fn lemma_listed_insert(m: Map<Seq<char>, Seq<char>>, k: Seq<char>, v: Seq<char>)
    requires
        is_listed(m),
    ensures
        is_listed(m.insert(k, v)),
{
    let s = choose|s: Seq<(Seq<char>, Seq<char>)>| sorted(s) && #[trigger] to_map(s) == m;
    if has_key(s, k) {
        let p = index_of(s, k);
        lemma_replace(s, p, v);
        assert(to_map(s.update(p, (s[p].0, v))) == m.insert(k, v));
    } else {
        lemma_split_point(s, k);
        let p = split_point(s, k);
        lemma_insert_new(s, p, k, v);
        assert(to_map(s.insert(p, (k, v))) == m.insert(k, v));
    }
}

/// The sorted list of a map of a list is sorted and stands for the map.
pub proof fn lemma_listed_entries(m: Map<Seq<char>, Seq<char>>)
    requires
        is_listed(m),
    ensures
        sorted(entries_of(m)),
        to_map(entries_of(m)) == m,
{
}

/// A map from strings to strings whose entries are held in lexical order of
/// their keys.
pub struct StrMap {
    items: Vec<(String, String)>,
}

impl View for StrMap {
    type V = Map<Seq<char>, Seq<char>>;

    closed spec fn view(&self) -> Map<Seq<char>, Seq<char>> {
        to_map(self.entries())
    }
}

impl StrMap {
    /// The entries, in ascending order of their keys.
    pub closed spec fn entries(&self) -> Seq<(Seq<char>, Seq<char>)> {
        Seq::new(self.items@.len(), |i: int| (self.items@[i].0@, self.items@[i].1@))
    }

    #[verifier::type_invariant]
    closed spec fn inv(&self) -> bool {
        sorted(self.entries())
    }

    /// What every value of the type satisfies: the entries are sorted and
    /// stand for the map that is the value's view.
    pub open spec fn wf(&self) -> bool {
        &&& sorted(self.entries())
        &&& self@ == to_map(self.entries())
    }

    /// The empty map.
    pub fn new() -> (m: Self)
        ensures
            m@ == Map::<Seq<char>, Seq<char>>::empty(),
            m.entries() == Seq::<(Seq<char>, Seq<char>)>::empty(),
            m.wf(),
    {
        let m = StrMap { items: Vec::new() };
        assert(m.entries() =~= Seq::empty());
        assert(m@ =~= Map::empty());
        m
    }

    /// Number of entries.
    pub fn len(&self) -> (n: usize)
        ensures
            n == self.entries().len(),
            self.wf(),
    {
        proof {
            use_type_invariant(self);
        }
        self.items.len()
    }

    /// The key of the entry at place `i`.
    pub fn key(&self, i: usize) -> (k: &str)
        requires
            i < self.entries().len(),
        ensures
            k@ == self.entries()[i as int].0,
    {
        self.items[i].0.as_str()
    }

    /// The value of the entry at place `i`.
    pub fn value(&self, i: usize) -> (v: &str)
        requires
            i < self.entries().len(),
        ensures
            v@ == self.entries()[i as int].1,
    {
        self.items[i].1.as_str()
    }

    /// The place where `key` is, or where it would be put.
    fn position(&self, key: &str) -> (r: (usize, bool))
        ensures
            r.0 <= self.entries().len(),
            r.1 ==> r.0 < self.entries().len() && self.entries()[r.0 as int].0 == key@,
            !r.1 ==> splits_at(self.entries(), r.0 as int, key@),
    {
        proof {
            use_type_invariant(self);
        }
        let mut i: usize = 0;
        while i < self.items.len()
            invariant
                i <= self.items@.len(),
                sorted(self.entries()),
                forall|j: int| 0 <= j < i ==> str_lt((#[trigger] self.entries()[j]).0, key@),
            decreases self.items@.len() - i,
        {
            match compare_str(self.items[i].0.as_str(), key) {
                Rank::Before => {},
                Rank::Same => {
                    return (i, true);
                },
                Rank::After => {
                    proof {
                        let s = self.entries();
                        assert forall|j: int| i <= j < s.len() implies str_lt(
                            key@,
                            (#[trigger] s[j]).0,
                        ) by {
                            if j > i {
                                assert(str_lt(s[i as int].0, s[j].0));
                                lemma_str_lt_transitive(key@, s[i as int].0, s[j].0);
                            }
                        }
                    }
                    return (i, false);
                },
            }
            i += 1;
        }
        (i, false)
    }

    /// The value under `key`, if there is one.
    pub fn get(&self, key: &str) -> (r: Option<&str>)
        ensures
            match r {
                Some(v) => self@.contains_key(key@) && self@[key@] == v@,
                None => !self@.contains_key(key@),
            },
    {
        proof {
            use_type_invariant(self);
        }
        let (p, found) = self.position(key);
        if found {
            proof {
                lemma_sorted_index(self.entries(), p as int);
            }
            Some(self.items[p].1.as_str())
        } else {
            proof {
                lemma_split_absent(self.entries(), p as int, key@);
            }
            None
        }
    }

    /// Whether there is an entry under `key`.
    pub fn contains_key(&self, key: &str) -> (b: bool)
        ensures
            b == self@.contains_key(key@),
    {
        self.get(key).is_some()
    }

    /// Puts `value` under `key`, in place of the value that was there, if
    /// any.
    pub fn insert(&mut self, key: String, value: String)
        ensures
            final(self)@ == old(self)@.insert(key@, value@),
            final(self).wf(),
    {
        proof {
            use_type_invariant(&*self);
        }
        let (p, found) = self.position(key.as_str());
        let ghost before = self.entries();
        let mut items: Vec<(String, String)> = Vec::new();
        core::mem::swap(&mut items, &mut self.items);
        assert(Seq::new(items@.len(), |i: int| (items@[i].0@, items@[i].1@)) =~= before);
        if found {
            proof {
                lemma_replace(before, p as int, value@);
            }
            items.set(p, (key, value));
        } else {
            proof {
                lemma_insert_new(before, p as int, key@, value@);
            }
            items.insert(p, (key, value));
        }
        let ghost after = Seq::new(items@.len(), |i: int| (items@[i].0@, items@[i].1@));
        assert(found ==> after =~= before.update(p as int, (key@, value@)));
        assert(!found ==> after =~= before.insert(p as int, (key@, value@)));
        core::mem::swap(&mut items, &mut self.items);
        assert(self.entries() =~= after);
    }

    /// Puts every entry of `other` into the map; where both have a key, the
    /// value of `other` stays.
    pub fn merge(&mut self, other: &StrMap)
        ensures
            final(self)@ == old(self)@.union_prefer_right(other@),
            final(self).wf(),
    {
        proof {
            use_type_invariant(&*self);
            use_type_invariant(other);
        }
        let n = other.len();
        let mut i: usize = 0;
        while i < n
            invariant
                i <= n,
                n == other.entries().len(),
                sorted(other.entries()),
                other@ == to_map(other.entries()),
                self.wf(),
                self@ == old(self)@.union_prefer_right(to_map(other.entries().take(i as int))),
            decreases n - i,
        {
            let k = String::from_str(other.key(i));
            let v = String::from_str(other.value(i));
            let ghost prev = self@;
            self.insert(k, v);
            proof {
                let s = other.entries();
                lemma_take_push(s, i as int);
                assert(self@ =~= old(self)@.union_prefer_right(
                    to_map(s.take(i as int + 1)),
                ));
            }
            i += 1;
        }
        proof {
            assert(other.entries().take(n as int) == other.entries());
        }
    }

    /// A copy of the map.
    pub fn duplicate(&self) -> (m: Self)
        ensures
            m@ == self@,
            m.entries() == self.entries(),
            m.wf(),
    {
        proof {
            use_type_invariant(self);
        }
        let mut items: Vec<(String, String)> = Vec::new();
        let mut i: usize = 0;
        while i < self.items.len()
            invariant
                i <= self.items@.len(),
                items@.len() == i,
                forall|j: int| 0 <= j < i ==> (#[trigger] items@[j]).0@ == self.items@[j].0@
                    && items@[j].1@ == self.items@[j].1@,
            decreases self.items@.len() - i,
        {
            items.push((self.items[i].0.clone(), self.items[i].1.clone()));
            i += 1;
        }
        let ghost s = Seq::new(items@.len(), |i: int| (items@[i].0@, items@[i].1@));
        assert(s =~= self.entries());
        let m = StrMap { items };
        assert(m.entries() =~= self.entries());
        m
    }
}

/// The map of the first `i + 1` entries of a sorted list is that of the
/// first `i` with the entry at `i` put in.
pub proof fn lemma_take_push(s: Seq<(Seq<char>, Seq<char>)>, i: int)
    requires
        sorted(s),
        0 <= i < s.len(),
    ensures
        sorted(s.take(i)),
        sorted(s.take(i + 1)),
        to_map(s.take(i + 1)) == to_map(s.take(i)).insert(s[i].0, s[i].1),
{
    let a = s.take(i);
    assert forall|x: int, y: int| 0 <= x < y < a.len() implies str_lt(
        (#[trigger] a[x]).0,
        (#[trigger] a[y]).0,
    ) by {
        assert(a[x] == s[x] && a[y] == s[y]);
    }
    assert(splits_at(a, i, s[i].0)) by {
        assert forall|x: int| 0 <= x < i implies str_lt((#[trigger] a[x]).0, s[i].0) by {
            assert(a[x] == s[x]);
        }
    }
    lemma_insert_new(a, i, s[i].0, s[i].1);
    assert(a.insert(i, s[i]) =~= s.take(i + 1));
}

} // verus!
