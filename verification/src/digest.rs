//! The hash functions that signing and integrity headers rest on. They
//! are computed by outside crates; here each gets a name, so that
//! contracts can speak of its result.
use vstd::prelude::*;
use vstd::string::*;
use crate::text::{hex, hex_lower};

verus! {

/// The SHA-256 digest of a byte string.
pub uninterp spec fn sha256(data: Seq<u8>) -> Seq<u8>;

/// The HMAC-SHA256 code of `data` under `key`.
pub uninterp spec fn hmac_sha256(key: Seq<u8>, data: Seq<u8>) -> Seq<u8>;

/// The MD5 digest of a byte string.
pub uninterp spec fn md5(data: Seq<u8>) -> Seq<u8>;

/// The base64 rendering of a byte string, standard alphabet, padded.
pub uninterp spec fn base64(data: Seq<u8>) -> Seq<char>;

/// `sha2::Sha256::digest`: the SHA-256 digest of `data`, as the crate
/// computes it.
#[verifier::external_body]
pub(crate) fn sha256_digest(data: &[u8]) -> (out: Vec<u8>)
    ensures
        out@ == sha256(data@),
{
    <sha2::Sha256 as sha2::Digest>::digest(data).to_vec()
}

/// `hmac::Mac::new_from_slice` of `hmac::Hmac<sha2::Sha256>` on `key`,
/// then `Mac::update` with `data` and `Mac::finalize`: the HMAC-SHA256
/// code as the crate computes it. `new_from_slice` takes a key of any
/// length.
#[verifier::external_body]
pub(crate) fn hmac_sha256_code(key: &[u8], data: &[u8]) -> (out: Vec<u8>)
    ensures
        out@ == hmac_sha256(key@, data@),
{
    let mut mac = <hmac::Hmac<sha2::Sha256> as hmac::Mac>::new_from_slice(key).unwrap();
    hmac::Mac::update(&mut mac, data);
    hmac::Mac::finalize(mac).into_bytes().to_vec()
}

/// `md5::compute`: the MD5 digest of `data`, as the crate computes it.
#[verifier::external_body]
pub(crate) fn md5_digest(data: &[u8]) -> (out: Vec<u8>)
    ensures
        out@ == md5(data@),
{
    md5::compute(data).0.to_vec()
}

/// `base64::Engine::encode` of the crate's `STANDARD` engine: the
/// rendering of `data` in the standard alphabet with padding.
#[verifier::external_body]
pub(crate) fn base64_encode(data: &[u8]) -> (out: String)
    ensures
        out@ == base64(data@),
{
    base64::Engine::encode(&base64::engine::general_purpose::STANDARD, data)
}

/// The digest of an empty body, in hexadecimal.
pub const EMPTY_CONTENT_SHA256: &'static str =
    "e3b0c44298fc1c149afbf4c8996fb92427ae41e4649b934ca495991b7852b855";

/// The SHA-256 digest of a byte string in lower-case hexadecimal.
pub open spec fn sha256_hex(data: Seq<u8>) -> Seq<char> {
    hex(sha256(data))
}

/// The SHA-256 digest of `data` in lower-case hexadecimal.
pub fn sha256_hash(data: &[u8]) -> (s: String)
    ensures
        s@ == sha256_hex(data@),
{
    let d = sha256_digest(data);
    hex_lower(d.as_slice())
}

/// The MD5 digest of a byte string in base64.
pub open spec fn md5_base64(data: Seq<u8>) -> Seq<char> {
    base64(md5(data))
}

/// The MD5 digest of `data` in base64, as the `Content-MD5` header takes
/// it.
pub fn md5sum_hash(data: &[u8]) -> (s: String)
    ensures
        s@ == md5_base64(data@),
{
    let d = md5_digest(data);
    base64_encode(d.as_slice())
}

} // verus!
