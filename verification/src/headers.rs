//! The headers of a request: names without regard to case, one value a
//! name, walked in lexical order of the lower-cased names.
use vstd::prelude::*;
use vstd::string::*;
use crate::strmap::{sorted, to_map, StrMap};
use crate::text::{from_chars, to_chars};

verus! {

/// The characters that a header name is made of: the token characters
/// of HTTP and the double quote, which is what the `http` crate takes, so
/// that every name held here can be handed to a transport built on it.
pub open spec fn is_token_char(c: char) -> bool {
    ||| 'a' <= c <= 'z'
    ||| 'A' <= c <= 'Z'
    ||| '0' <= c <= '9'
    ||| c == '!'
    ||| c == '"'
    ||| c == '#'
    ||| c == '$'
    ||| c == '%'
    ||| c == '&'
    ||| c == '\''
    ||| c == '*'
    ||| c == '+'
    ||| c == '-'
    ||| c == '.'
    ||| c == '^'
    ||| c == '_'
    ||| c == '`'
    ||| c == '|'
    ||| c == '~'
}

/// Largest length of a header name.
pub const MAX_HEADER_NAME_LEN: usize = 65535;

/// `s` can be the name of a header: not empty, not longer than
/// [`MAX_HEADER_NAME_LEN`], token characters only.
pub open spec fn is_header_name(s: Seq<char>) -> bool {
    &&& 0 < s.len() <= MAX_HEADER_NAME_LEN
    &&& forall|i: int| 0 <= i < s.len() ==> is_token_char(#[trigger] s[i])
}

/// `s` can be the value of a header: no control character but the tab.
pub open spec fn is_header_value(s: Seq<char>) -> bool {
    forall|i: int|
        0 <= i < s.len() ==> (#[trigger] s[i]) == '\t' || (' ' <= s[i] && s[i] != '\x7f')
}

/// The lower-case form of an ASCII letter; any other character as it is.
pub open spec fn lower_char(c: char) -> char {
    if 'A' <= c <= 'Z' {
        ((c as u8) + 32) as char
    } else {
        c
    }
}

/// `s` with its ASCII letters in lower case.
pub open spec fn lower(s: Seq<char>) -> Seq<char> {
    Seq::new(s.len(), |i: int| lower_char(s[i]))
}

/// `s` holds no ASCII letter in upper case.
pub open spec fn is_lower_case(s: Seq<char>) -> bool {
    forall|i: int| 0 <= i < s.len() ==> !('A' <= #[trigger] s[i] <= 'Z')
}

pub proof fn lemma_lower_name(s: Seq<char>)
    requires
        is_header_name(s),
    ensures
        is_header_name(lower(s)),
        is_lower_case(lower(s)),
        lower(lower(s)) == lower(s),
{
    assert forall|i: int| 0 <= i < lower(s).len() implies is_token_char(#[trigger] lower(s)[i]) by {
        assert(is_token_char(s[i]));
    }
    assert(lower(lower(s)) =~= lower(s));
}

/// Whether `name` can be the name of a header.
pub fn check_header_name(name: &Vec<char>) -> (b: bool)
    ensures
        b == is_header_name(name@),
{
    if name.len() == 0 || name.len() > MAX_HEADER_NAME_LEN {
        return false;
    }
    let mut i: usize = 0;
    while i < name.len()
        invariant
            i <= name.len(),
            forall|j: int| 0 <= j < i ==> is_token_char(#[trigger] name@[j]),
        decreases name.len() - i,
    {
        let c = name[i];
        let ok = (c >= 'a' && c <= 'z') || (c >= 'A' && c <= 'Z') || (c >= '0' && c <= '9') || c
            == '!' || c == '"' || c == '#' || c == '$' || c == '%' || c == '&' || c == '\'' || c == '*' || c
            == '+' || c == '-' || c == '.' || c == '^' || c == '_' || c == '`' || c == '|' || c
            == '~';
        if !ok {
            return false;
        }
        i += 1;
    }
    true
}

/// Whether `value` can be the value of a header.
pub fn check_header_value(value: &str) -> (b: bool)
    ensures
        b == is_header_value(value@),
{
    let v = to_chars(value);
    let mut i: usize = 0;
    while i < v.len()
        invariant
            i <= v.len(),
            v@ == value@,
            forall|j: int|
                0 <= j < i ==> (#[trigger] v@[j]) == '\t' || (' ' <= v@[j] && v@[j] != '\x7f'),
        decreases v.len() - i,
    {
        let c = v[i];
        if !(c == '\t' || (c >= ' ' && c != '\x7f')) {
            return false;
        }
        i += 1;
    }
    true
}

/// `name` with its ASCII letters in lower case.
pub fn to_lower(name: &Vec<char>) -> (out: String)
    ensures
        out@ == lower(name@),
{
    let mut v: Vec<char> = Vec::new();
    let mut i: usize = 0;
    while i < name.len()
        invariant
            i <= name.len(),
            v@ == lower(name@.take(i as int)),
        decreases name.len() - i,
    {
        let c = name[i];
        if c >= 'A' && c <= 'Z' {
            v.push(((c as u8) + 32) as char);
        } else {
            v.push(c);
        }
        i += 1;
        assert(v@ =~= lower(name@.take(i as int)));
    }
    assert(name@.take(name.len() as int) == name@);
    from_chars(&v)
}

/// Every name of `m` is a header name in lower case, and every value a
/// header value.
pub open spec fn header_entries(m: Map<Seq<char>, Seq<char>>) -> bool {
    forall|k: Seq<char>| #[trigger]
        m.contains_key(k) ==> is_header_name(k) && is_lower_case(k) && is_header_value(m[k])
}

/// The headers of a request. A name is held in lower case, so that names
/// which differ in case only are one name.
pub struct HeaderMap {
    map: StrMap,
}

impl View for HeaderMap {
    type V = Map<Seq<char>, Seq<char>>;

    closed spec fn view(&self) -> Map<Seq<char>, Seq<char>> {
        self.map@
    }
}

impl HeaderMap {
    /// The headers in ascending order of their names.
    pub closed spec fn entries(&self) -> Seq<(Seq<char>, Seq<char>)> {
        self.map.entries()
    }

    #[verifier::type_invariant]
    closed spec fn inv(&self) -> bool {
        self.map.wf() && header_entries(self.map@)
    }

    /// What every value of the type satisfies.
    pub open spec fn wf(&self) -> bool {
        &&& sorted(self.entries())
        &&& self@ == to_map(self.entries())
        &&& header_entries(self@)
    }

    /// No headers.
    pub fn new() -> (h: Self)
        ensures
            h@ == Map::<Seq<char>, Seq<char>>::empty(),
            h.wf(),
    {
        HeaderMap { map: StrMap::new() }
    }

    /// Number of headers.
    pub fn len(&self) -> (n: usize)
        ensures
            n == self.entries().len(),
            self.wf(),
    {
        proof {
            use_type_invariant(self);
        }
        self.map.len()
    }

    /// The name of the header at place `i`, in ascending order of names.
    pub fn name(&self, i: usize) -> (k: &str)
        requires
            i < self.entries().len(),
        ensures
            k@ == self.entries()[i as int].0,
    {
        self.map.key(i)
    }

    /// The value of the header at place `i`, in ascending order of names.
    pub fn value(&self, i: usize) -> (v: &str)
        requires
            i < self.entries().len(),
        ensures
            v@ == self.entries()[i as int].1,
    {
        self.map.value(i)
    }

    /// Sets the header `name` to `value`, in place of its value so far, and
    /// says so; a name or a value that cannot stand in a header changes
    /// nothing.
    pub fn insert(&mut self, name: &str, value: &str) -> (done: bool)
        ensures
            done == (is_header_name(name@) && is_header_value(value@)),
            done ==> final(self)@ == old(self)@.insert(lower(name@), value@),
            !done ==> final(self)@ == old(self)@,
            final(self).wf(),
    {
        proof {
            use_type_invariant(&*self);
        }
        let chars = to_chars(name);
        if !check_header_name(&chars) || !check_header_value(value) {
            return false;
        }
        let key = to_lower(&chars);
        proof {
            lemma_lower_name(name@);
        }
        let mut map = StrMap::new();
        core::mem::swap(&mut map, &mut self.map);
        map.insert(key, String::from_str(value));
        core::mem::swap(&mut map, &mut self.map);
        true
    }

    /// The value of the header `name`, whatever the case of its letters.
    pub fn get(&self, name: &str) -> (r: Option<&str>)
        ensures
            match r {
                Some(v) => self@.contains_key(lower(name@)) && self@[lower(name@)] == v@,
                None => !self@.contains_key(lower(name@)),
            },
    {
        let chars = to_chars(name);
        let key = to_lower(&chars);
        self.map.get(key.as_str())
    }

    /// Whether the header `name` is set.
    pub fn contains_key(&self, name: &str) -> (b: bool)
        ensures
            b == self@.contains_key(lower(name@)),
    {
        self.get(name).is_some()
    }

    /// Sets every header of `other`; where both have a name, the value of
    /// `other` stays.
    pub fn merge(&mut self, other: &HeaderMap)
        ensures
            final(self)@ == old(self)@.union_prefer_right(other@),
            final(self).wf(),
    {
        proof {
            use_type_invariant(&*self);
            use_type_invariant(other);
        }
        let mut map = StrMap::new();
        core::mem::swap(&mut map, &mut self.map);
        map.merge(&other.map);
        core::mem::swap(&mut map, &mut self.map);
    }

    /// A copy of the headers.
    pub fn duplicate(&self) -> (h: Self)
        ensures
            h@ == self@,
            h.entries() == self.entries(),
            h.wf(),
    {
        proof {
            use_type_invariant(self);
        }
        HeaderMap { map: self.map.duplicate() }
    }
}

} // verus!
