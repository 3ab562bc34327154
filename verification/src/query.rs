//! The query parameters of a request: one value a key, rendered in
//! lexical order of the keys whatever the order of the insertions was.
use vstd::prelude::*;
use vstd::string::*;
use crate::encode::{push_urlencoded, url_encoded};
use crate::strmap::{lemma_to_map_unique, sorted, to_map, StrMap};
use crate::text::{from_chars, to_chars};

verus! {

/// One parameter in a query string: key and value percent-encoded, `=`
/// between them.
pub open spec fn pair_text(p: (Seq<char>, Seq<char>)) -> Seq<char> {
    url_encoded(p.0, false) + seq!['='] + url_encoded(p.1, false)
}

/// The query string of a list of parameters: the parameters in the
/// order of the list, `&` between each two.
pub open spec fn query_text(entries: Seq<(Seq<char>, Seq<char>)>) -> Seq<char>
    decreases entries.len(),
{
    if entries.len() == 0 {
        Seq::empty()
    } else if entries.len() == 1 {
        pair_text(entries[0])
    } else {
        query_text(entries.drop_last()) + seq!['&'] + pair_text(entries.last())
    }
}

/// The pieces that `sep` cuts `s` into; a string without `sep` is one
/// piece, and so is the empty string.
pub open spec fn pieces(s: Seq<char>, sep: char) -> Seq<Seq<char>>
    decreases s.len(),
{
    if s.len() == 0 {
        seq![Seq::empty()]
    } else {
        let before = pieces(s.drop_last(), sep);
        if s.last() == sep {
            before.push(Seq::empty())
        } else {
            before.drop_last().push(before.last().push(s.last()))
        }
    }
}

pub proof fn lemma_pieces_nonempty(s: Seq<char>, sep: char)
    ensures
        pieces(s, sep).len() > 0,
    decreases s.len(),
{
    if s.len() > 0 {
        lemma_pieces_nonempty(s.drop_last(), sep);
    }
}

/// The place of the first `=` in `s`, or the length of `s` where it has
/// none.
pub open spec fn equals_at(s: Seq<char>) -> int
    decreases s.len(),
{
    if s.len() == 0 {
        0
    } else if s[0] == '=' {
        0
    } else {
        1 + equals_at(s.drop_first())
    }
}

pub proof fn lemma_equals_at(s: Seq<char>)
    ensures
        0 <= equals_at(s) <= s.len(),
        forall|j: int| 0 <= j < equals_at(s) ==> s[j] != '=',
        equals_at(s) < s.len() ==> s[equals_at(s)] == '=',
    decreases s.len(),
{
    if s.len() > 0 && s[0] != '=' {
        let t = s.drop_first();
        lemma_equals_at(t);
        assert forall|j: int| 0 <= j < equals_at(s) implies s[j] != '=' by {
            if j > 0 {
                assert(s[j] == t[j - 1]);
            }
        }
    }
}

/// Key and value of one piece of a query string: what stands before its
/// first `=`, and what stands behind it; the whole piece and nothing,
/// where it has no `=`.
pub open spec fn piece_pair(s: Seq<char>) -> (Seq<char>, Seq<char>) {
    let i = equals_at(s);
    if i < s.len() {
        (s.take(i), s.skip(i + 1))
    } else {
        (s, Seq::empty())
    }
}

/// The parameters that a list of pieces names, one for each piece that is
/// not empty, in their order.
pub open spec fn piece_pairs(ps: Seq<Seq<char>>) -> Seq<(Seq<char>, Seq<char>)>
    decreases ps.len(),
{
    if ps.len() == 0 {
        Seq::empty()
    } else if ps.last().len() == 0 {
        piece_pairs(ps.drop_last())
    } else {
        piece_pairs(ps.drop_last()).push(piece_pair(ps.last()))
    }
}

/// The parameters that a query string names: its pieces between `&`,
/// each cut at its first `=`. Nothing is decoded.
pub open spec fn parsed_query(s: Seq<char>) -> Seq<(Seq<char>, Seq<char>)> {
    piece_pairs(pieces(s, '&'))
}

/// `m` with every parameter of `ps` put in, in their order, a later one
/// over an earlier one.
pub open spec fn with_all(m: Map<Seq<char>, Seq<char>>, ps: Seq<(Seq<char>, Seq<char>)>) -> Map<
    Seq<char>,
    Seq<char>,
>
    decreases ps.len(),
{
    if ps.len() == 0 {
        m
    } else {
        with_all(m, ps.drop_last()).insert(ps.last().0, ps.last().1)
    }
}

/// Cuts `s` at every `sep`.
pub fn split_pieces(s: &Vec<char>, sep: char) -> (out: Vec<Vec<char>>)
    ensures
        out@.len() == pieces(s@, sep).len(),
        forall|i: int| 0 <= i < out@.len() ==> (#[trigger] out@[i])@ == pieces(s@, sep)[i],
{
    let mut out: Vec<Vec<char>> = Vec::new();
    let mut cur: Vec<char> = Vec::new();
    let mut i: usize = 0;
    proof {
        lemma_pieces_nonempty(s@.take(0), sep);
    }
    while i < s.len()
        invariant
            i <= s.len(),
            out@.len() + 1 == pieces(s@.take(i as int), sep).len(),
            forall|j: int|
                0 <= j < out@.len() ==> (#[trigger] out@[j])@ == pieces(s@.take(i as int), sep)[j],
            cur@ == pieces(s@.take(i as int), sep).last(),
        decreases s.len() - i,
    {
        let c = s[i];
        proof {
            let t = s@.take(i as int + 1);
            assert(t.drop_last() =~= s@.take(i as int));
            assert(t.last() == c);
            lemma_pieces_nonempty(s@.take(i as int), sep);
        }
        if c == sep {
            out.push(cur);
            cur = Vec::new();
        } else {
            cur.push(c);
        }
        i += 1;
    }
    assert(s@.take(s.len() as int) == s@);
    out.push(cur);
    out
}

/// Cuts one piece of a query string into key and value.
pub fn split_pair(piece: &Vec<char>) -> (r: (String, String))
    ensures
        (r.0@, r.1@) == piece_pair(piece@),
{
    let mut i: usize = 0;
    proof {
        lemma_equals_at(piece@);
    }
    while i < piece.len() && piece[i] != '='
        invariant
            i <= piece.len(),
            forall|j: int| 0 <= j < i ==> piece@[j] != '=',
        decreases piece.len() - i,
    {
        i += 1;
    }
    assert(i == equals_at(piece@));
    let mut key: Vec<char> = Vec::new();
    let mut j: usize = 0;
    while j < i
        invariant
            j <= i <= piece.len(),
            key@ == piece@.take(j as int),
        decreases i - j,
    {
        key.push(piece[j]);
        j += 1;
        assert(key@ =~= piece@.take(j as int));
    }
    let mut value: Vec<char> = Vec::new();
    if i < piece.len() {
        let mut k: usize = i + 1;
        while k < piece.len()
            invariant
                i + 1 <= k <= piece.len(),
                value@ == piece@.subrange(i as int + 1, k as int),
            decreases piece.len() - k,
        {
            value.push(piece[k]);
            k += 1;
            assert(value@ =~= piece@.subrange(i as int + 1, k as int));
        }
        assert(piece@.subrange(i as int + 1, piece.len() as int) =~= piece@.skip(i as int + 1));
    } else {
        assert(piece@.take(i as int) =~= piece@);
    }
    (from_chars(&key), from_chars(&value))
}

/// The query parameters of a request: a map from keys to values.
pub struct QueryMap {
    map: StrMap,
}

impl View for QueryMap {
    type V = Map<Seq<char>, Seq<char>>;

    closed spec fn view(&self) -> Map<Seq<char>, Seq<char>> {
        self.map@
    }
}

impl QueryMap {
    /// The parameters in ascending order of their keys.
    pub closed spec fn entries(&self) -> Seq<(Seq<char>, Seq<char>)> {
        self.map.entries()
    }

    #[verifier::type_invariant]
    closed spec fn inv(&self) -> bool {
        self.map.wf()
    }

    /// What every value of the type satisfies: the parameters are held in
    /// strictly ascending order of their keys.
    pub open spec fn wf(&self) -> bool {
        &&& sorted(self.entries())
        &&& self@ == to_map(self.entries())
    }

    /// The query string of the map: its parameters in ascending order of
    /// their keys.
    pub open spec fn text(&self) -> Seq<char> {
        query_text(self.entries())
    }

    /// No parameters.
    pub fn new() -> (q: Self)
        ensures
            q@ == Map::<Seq<char>, Seq<char>>::empty(),
            q.entries() == Seq::<(Seq<char>, Seq<char>)>::empty(),
            q.wf(),
    {
        QueryMap { map: StrMap::new() }
    }

    /// The parameters that a query string names; see [`QueryMap::merge_str`].
    pub fn from_str(query_str: &str) -> (q: Self)
        ensures
            q@ == with_all(Map::<Seq<char>, Seq<char>>::empty(), parsed_query(query_str@)),
            q.wf(),
    {
        let mut q = QueryMap::new();
        q.merge_str(query_str);
        q
    }

    /// Number of parameters.
    pub fn len(&self) -> (n: usize)
        ensures
            n == self.entries().len(),
            self.wf(),
    {
        proof {
            use_type_invariant(self);
        }
        self.map.len()
    }

    /// The value under `key`, if there is one.
    pub fn get(&self, key: &str) -> (r: Option<&str>)
        ensures
            match r {
                Some(v) => self@.contains_key(key@) && self@[key@] == v@,
                None => !self@.contains_key(key@),
            },
    {
        self.map.get(key)
    }

    /// Puts `value` under `key`, in place of the value that was there, if
    /// any.
    pub fn insert(&mut self, key: String, value: String)
        ensures
            final(self)@ == old(self)@.insert(key@, value@),
            final(self).wf(),
    {
        let mut map = StrMap::new();
        core::mem::swap(&mut map, &mut self.map);
        map.insert(key, value);
        core::mem::swap(&mut map, &mut self.map);
    }

    /// Puts every parameter of `querys` into the map; where both have a
    /// key, the value of `querys` stays.
    pub fn merge(&mut self, querys: QueryMap)
        ensures
            final(self)@ == old(self)@.union_prefer_right(querys@),
            final(self).wf(),
    {
        let mut map = StrMap::new();
        core::mem::swap(&mut map, &mut self.map);
        map.merge(&querys.map);
        core::mem::swap(&mut map, &mut self.map);
    }

    /// Puts the parameters that `query_str` names into the map: its pieces
    /// between `&`, each cut at its first `=` into key and value, a piece
    /// without `=` being a key with an empty value. Empty pieces are
    /// passed over, and nothing is decoded.
    pub fn merge_str(&mut self, query_str: &str)
        ensures
            final(self)@ == with_all(old(self)@, parsed_query(query_str@)),
            final(self).wf(),
    {
        proof {
            use_type_invariant(&*self);
        }
        let chars = to_chars(query_str);
        let parts = split_pieces(&chars, '&');
        let mut map = StrMap::new();
        core::mem::swap(&mut map, &mut self.map);
        let ghost ps = pieces(query_str@, '&');
        let mut i: usize = 0;
        while i < parts.len()
            invariant
                i <= parts.len(),
                parts@.len() == ps.len(),
                forall|j: int| 0 <= j < parts@.len() ==> (#[trigger] parts@[j])@ == ps[j],
                map.wf(),
                map@ == with_all(old(self)@, piece_pairs(ps.take(i as int))),
            decreases parts.len() - i,
        {
            proof {
                let t = ps.take(i as int + 1);
                assert(t.drop_last() =~= ps.take(i as int));
                assert(t.last() == ps[i as int]);
                assert(parts@[i as int]@ == ps[i as int]);
            }
            if parts[i].len() > 0 {
                let (k, v) = split_pair(&parts[i]);
                map.insert(k, v);
                proof {
                    let done = piece_pairs(ps.take(i as int));
                    let next = done.push(piece_pair(ps[i as int]));
                    assert(next.drop_last() =~= done);
                    assert(piece_pairs(ps.take(i as int + 1)) == next);
                }
            }
            i += 1;
        }
        assert(ps.take(parts.len() as int) == ps);
        core::mem::swap(&mut map, &mut self.map);
    }

    /// The query string: the parameters in ascending order of their keys,
    /// each as key, `=` and value, both percent-encoded, with `&` between
    /// each two.
    pub fn to_query_string(&self) -> (s: String)
        ensures
            s@ == self.text(),
            self.wf(),
    {
        proof {
            use_type_invariant(self);
        }
        let mut s = String::new();
        let n = self.map.len();
        let mut i: usize = 0;
        while i < n
            invariant
                i <= n,
                n == self.entries().len(),
                s@ == query_text(self.entries().take(i as int)),
            decreases n - i,
        {
            let ghost before = s@;
            if i > 0 {
                s.push('&');
            }
            push_urlencoded(&mut s, self.map.key(i), false);
            s.push('=');
            push_urlencoded(&mut s, self.map.value(i), false);
            proof {
                let e = self.entries();
                let t = e.take(i as int + 1);
                assert(t.drop_last() =~= e.take(i as int));
                assert(t.last() == e[i as int]);
                if i == 0 {
                    assert(t[0] == e[0]);
                    assert(s@ =~= pair_text(e[0]));
                } else {
                    assert(s@ =~= before + seq!['&'] + pair_text(e[i as int]));
                }
            }
            i += 1;
        }
        assert(self.entries().take(n as int) == self.entries());
        s
    }

    /// A copy of the map.
    pub fn duplicate(&self) -> (q: Self)
        ensures
            q@ == self@,
            q.entries() == self.entries(),
            q.wf(),
    {
        proof {
            use_type_invariant(self);
        }
        QueryMap { map: self.map.duplicate() }
    }
}

/// The keys of a query map's entries strictly ascend, and two query maps
/// that hold the same parameters have the same entries in the same order
/// and so the same query string, in whatever order the parameters were
/// put in.
pub proof fn law_query_string_by_content(a: QueryMap, b: QueryMap)
    requires
        a.wf(),
        b.wf(),
        a@ == b@,
    ensures
        sorted(a.entries()),
        a.entries() == b.entries(),
        a.text() == b.text(),
{
    lemma_to_map_unique(a.entries(), b.entries());
}

/// Putting two parameters with different keys into a map gives the same
/// map in either order.
pub proof fn law_insert_order(
    m: Map<Seq<char>, Seq<char>>,
    k1: Seq<char>,
    v1: Seq<char>,
    k2: Seq<char>,
    v2: Seq<char>,
)
    requires
        k1 != k2,
    ensures
        m.insert(k1, v1).insert(k2, v2) == m.insert(k2, v2).insert(k1, v1),
{
    assert(m.insert(k1, v1).insert(k2, v2) =~= m.insert(k2, v2).insert(k1, v1));
}

} // verus!
