use minio_rsc::digest::{md5sum_hash, sha256_hash, EMPTY_CONTENT_SHA256};
use minio_rsc::encode::urlencode;
use minio_rsc::text::{decimal_string, hex_lower};

#[test]
fn hex_of_bytes_is_lower_case() {
    assert_eq!(hex_lower(&[0x00, 0x0f, 0xa5, 0xff]), "000fa5ff");
}

#[test]
fn decimal_of_numbers() {
    assert_eq!(decimal_string(0), "0");
    assert_eq!(decimal_string(5242880), "5242880");
    assert_eq!(decimal_string(u64::MAX), "18446744073709551615");
}

#[test]
fn sha256_of_empty_is_the_constant() {
    assert_eq!(sha256_hash(b""), EMPTY_CONTENT_SHA256);
}

#[test]
fn sha256_of_abc() {
    assert_eq!(
        sha256_hash(b"abc"),
        "ba7816bf8f01cfea414140de5dae2223b00361a396177a9cb410ff61f20015ad"
    );
}

#[test]
fn md5_base64_of_text() {
    assert_eq!(md5sum_hash(b"hello world"), "XrY7u+Ae7tCTyyK7j1rNww==");
}

#[test]
fn urlencode_keeps_or_encodes_slash() {
    assert_eq!(urlencode("a/b c", true), "a/b%20c");
    assert_eq!(urlencode("a/b c", false), "a%2Fb%20c");
    assert_eq!(urlencode("A-Za_z.0~9", false), "A-Za_z.0~9");
    assert_eq!(urlencode("é", false), "%C3%A9");
}
