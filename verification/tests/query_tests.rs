use minio_rsc::headers::HeaderMap;
use minio_rsc::query::QueryMap;
use minio_rsc::strmap::StrMap;
use minio_rsc::text::{compare_bytes, compare_str, Rank};

fn s(x: &str) -> String {
    x.to_string()
}

#[test]
fn query_string_is_sorted_by_key() {
    let mut q = QueryMap::new();
    q.insert(s("prefix"), s("J"));
    q.insert(s("max-keys"), s("2"));
    q.insert(s("delimiter"), s("/"));
    assert_eq!(q.to_query_string(), "delimiter=%2F&max-keys=2&prefix=J");
}

#[test]
fn query_string_does_not_depend_on_insertion_order() {
    let pairs = [("b", "2"), ("a", "1"), ("d", "4"), ("c", "3"), ("A", "0")];
    let mut forward = QueryMap::new();
    for (k, v) in pairs.iter() {
        forward.insert(s(k), s(v));
    }
    let mut backward = QueryMap::new();
    for (k, v) in pairs.iter().rev() {
        backward.insert(s(k), s(v));
    }
    assert_eq!(forward.to_query_string(), "A=0&a=1&b=2&c=3&d=4");
    assert_eq!(forward.to_query_string(), backward.to_query_string());
    assert_eq!(forward.to_query_string(), forward.to_query_string());
}

#[test]
fn query_keys_are_unique() {
    let mut q = QueryMap::new();
    q.insert(s("k"), s("old"));
    q.insert(s("k"), s("new"));
    assert_eq!(q.len(), 1);
    assert_eq!(q.get("k"), Some("new"));
    assert_eq!(q.get("other"), None);
    assert_eq!(q.to_query_string(), "k=new");
}

#[test]
fn empty_query_map_gives_empty_string() {
    assert_eq!(QueryMap::new().to_query_string(), "");
    assert_eq!(QueryMap::new().len(), 0);
}

#[test]
fn query_values_are_percent_encoded() {
    let mut q = QueryMap::new();
    q.insert(s("versionId"), s("a b/c&d=e"));
    q.insert(s("tagging"), s(""));
    assert_eq!(q.to_query_string(), "tagging=&versionId=a%20b%2Fc%26d%3De");
}

#[test]
fn merge_str_cuts_at_ampersand_and_first_equals() {
    let mut q = QueryMap::new();
    q.merge_str("b=2&a=1&&flag&x=y=z&");
    assert_eq!(q.len(), 4);
    assert_eq!(q.get("a"), Some("1"));
    assert_eq!(q.get("b"), Some("2"));
    assert_eq!(q.get("flag"), Some(""));
    assert_eq!(q.get("x"), Some("y=z"));
    assert_eq!(q.to_query_string(), "a=1&b=2&flag=&x=y%3Dz");
}

#[test]
fn merge_str_of_empty_text_changes_nothing() {
    let mut q = QueryMap::new();
    q.insert(s("a"), s("1"));
    q.merge_str("");
    assert_eq!(q.to_query_string(), "a=1");
}

#[test]
fn merge_str_later_value_wins() {
    let q = QueryMap::from_str("a=1&a=2&=v");
    assert_eq!(q.get("a"), Some("2"));
    assert_eq!(q.get(""), Some("v"));
    assert_eq!(q.len(), 2);
}

#[test]
fn merge_prefers_the_other_map() {
    let mut a = QueryMap::new();
    a.insert(s("x"), s("1"));
    a.insert(s("y"), s("1"));
    let mut b = QueryMap::new();
    b.insert(s("y"), s("2"));
    b.insert(s("z"), s("2"));
    a.merge(b);
    assert_eq!(a.to_query_string(), "x=1&y=2&z=2");
    let copy = a.duplicate();
    assert_eq!(copy.to_query_string(), "x=1&y=2&z=2");
}

#[test]
fn str_map_keeps_keys_in_byte_order() {
    let mut m = StrMap::new();
    for k in ["b", "a", "ab", "B", "", "é", "z"] {
        m.insert(s(k), s("v"));
    }
    let keys: Vec<String> = (0..m.len()).map(|i| m.key(i).to_string()).collect();
    assert_eq!(keys, vec!["", "B", "a", "ab", "b", "z", "é"]);
    assert!(m.contains_key("ab"));
    assert!(!m.contains_key("c"));
    assert_eq!(m.value(0), "v");
}

#[test]
fn bytes_compare_lexically() {
    assert_eq!(compare_bytes(b"abc", b"abd"), Rank::Before);
    assert_eq!(compare_bytes(b"abc", b"abc"), Rank::Same);
    assert_eq!(compare_bytes(b"abd", b"abc"), Rank::After);
    assert_eq!(compare_bytes(b"ab", b"abc"), Rank::Before);
    assert_eq!(compare_bytes(b"abc", b"ab"), Rank::After);
    assert_eq!(compare_bytes(b"", b""), Rank::Same);
    assert_eq!(compare_bytes(b"", b"\x00"), Rank::Before);
    assert_eq!(compare_str("Z", "a"), Rank::Before);
}

#[test]
fn header_names_ignore_case() {
    let mut h = HeaderMap::new();
    assert!(h.insert("Content-Type", "text/plain"));
    assert!(h.insert("content-type", "application/xml"));
    assert_eq!(h.len(), 1);
    assert_eq!(h.get("CONTENT-TYPE"), Some("application/xml"));
    assert_eq!(h.name(0), "content-type");
    assert_eq!(h.value(0), "application/xml");
    assert!(h.contains_key("Content-type"));
    assert!(!h.contains_key("Content-Length"));
}

#[test]
fn header_map_refuses_what_cannot_stand_in_a_header() {
    let mut h = HeaderMap::new();
    assert!(!h.insert("", "v"));
    assert!(!h.insert("bad name", "v"));
    assert!(!h.insert("bad:name", "v"));
    assert!(!h.insert("name", "line\nbreak"));
    assert!(!h.insert("name", "del\x7f"));
    assert!(h.insert("name", "tab\tis fine"));
    assert!(h.insert("x!\"#$%&'*+-.^_`|~9", "é"));
    assert!(h.insert(&"n".repeat(65535), "long"));
    assert!(!h.insert(&"n".repeat(65536), "too long"));
    assert!(!h.insert("a(b)", "v"));
    assert!(!h.insert("a/b", "v"));
    assert!(!h.insert("é", "v"));
    assert_eq!(h.len(), 3);
}

#[test]
fn header_map_merge_prefers_the_other_map() {
    let mut a = HeaderMap::new();
    a.insert("A", "1");
    a.insert("B", "1");
    let mut b = HeaderMap::new();
    b.insert("b", "2");
    b.insert("C", "2");
    a.merge(&b);
    assert_eq!(a.len(), 3);
    assert_eq!(a.get("a"), Some("1"));
    assert_eq!(a.get("b"), Some("2"));
    assert_eq!(a.get("c"), Some("2"));
    assert_eq!(a.duplicate().len(), 3);
}
