//! Signature Version 4: the canonical form of a request, the string that
//! is signed, the signing key and the `Authorization` header.
use vstd::prelude::*;
use vstd::string::*;
use vstd::utf8::*;
use crate::digest::{hmac_sha256, hmac_sha256_code, sha256_hash, sha256_hex};
use crate::headers::HeaderMap;
use crate::text::{hex, hex_lower};
use crate::time::{
    aws_format_date, aws_format_time, date_text, lemma_date_text_injective, lemma_padded_len,
    lemma_time_text_injective, time_text, valid_civil, Civil, Timestamp,
};

verus! {

pub open spec fn is_blank(c: char) -> bool {
    c == ' ' || c == '\t'
}

/// A header value with its blanks normalised: those at either end are
/// dropped, and every run of blanks inside becomes one space.
pub open spec fn squeezed(s: Seq<char>) -> Seq<char>
    decreases s.len(),
{
    if s.len() == 0 {
        Seq::empty()
    } else {
        let before = squeezed(s.drop_last());
        if is_blank(s.last()) {
            before
        } else if before.len() > 0 && is_blank(s[s.len() - 2]) {
            before.push(' ').push(s.last())
        } else {
            before.push(s.last())
        }
    }
}

/// One line of the canonical headers: name, `:`, normalised value.
pub open spec fn header_line(p: (Seq<char>, Seq<char>)) -> Seq<char> {
    p.0 + seq![':'] + squeezed(p.1)
}

/// The canonical headers: one line a header, in the order of the list,
/// with a line feed between each two.
pub open spec fn header_block(entries: Seq<(Seq<char>, Seq<char>)>) -> Seq<char>
    decreases entries.len(),
{
    if entries.len() == 0 {
        Seq::empty()
    } else if entries.len() == 1 {
        header_line(entries[0])
    } else {
        header_block(entries.drop_last()) + seq!['\n'] + header_line(entries.last())
    }
}

/// The signed headers: the names in the order of the list, with `;`
/// between each two.
pub open spec fn signed_names(entries: Seq<(Seq<char>, Seq<char>)>) -> Seq<char>
    decreases entries.len(),
{
    if entries.len() == 0 {
        Seq::empty()
    } else if entries.len() == 1 {
        entries[0].0
    } else {
        signed_names(entries.drop_last()) + seq![';'] + entries.last().0
    }
}

/// The canonical request: method, path, query string, canonical headers,
/// an empty line, signed headers and payload hash, each on a line of its
/// own.
pub open spec fn canonical_request_text(
    method: Seq<char>,
    path: Seq<char>,
    query: Seq<char>,
    entries: Seq<(Seq<char>, Seq<char>)>,
    payload_hash: Seq<char>,
) -> Seq<char> {
    method + seq!['\n'] + path + seq!['\n'] + query + seq!['\n'] + header_block(entries) + seq![
        '\n',
        '\n',
    ] + signed_names(entries) + seq!['\n'] + payload_hash
}

/// The credential scope: date, region, service and `aws4_request`, with
/// `/` between them.
pub open spec fn scope_text(date: Seq<char>, region: Seq<char>, service: Seq<char>) -> Seq<char> {
    date + seq!['/'] + region + seq!['/'] + service + "/aws4_request"@
}

/// The string to sign: the algorithm, the moment, the scope and the
/// digest of the canonical request, each on a line of its own.
pub open spec fn string_to_sign_text(time: Seq<char>, scope: Seq<char>, request_digest: Seq<char>) -> Seq<
    char,
> {
    "AWS4-HMAC-SHA256\n"@ + time + seq!['\n'] + scope + seq!['\n'] + request_digest
}

/// The signing key: `AWS4` and the secret key, hashed in turn with the
/// date, the region, the service and `aws4_request`.
pub open spec fn signing_key(
    secret_key: Seq<char>,
    date: Seq<char>,
    region: Seq<char>,
    service: Seq<char>,
) -> Seq<u8> {
    let k_date = hmac_sha256(encode_utf8("AWS4"@ + secret_key), encode_utf8(date));
    let k_region = hmac_sha256(k_date, encode_utf8(region));
    let k_service = hmac_sha256(k_region, encode_utf8(service));
    hmac_sha256(k_service, encode_utf8("aws4_request"@))
}

/// The signature: the code of the string to sign under the signing key,
/// in lower-case hexadecimal.
pub open spec fn signature_text(key: Seq<u8>, to_sign: Seq<char>) -> Seq<char> {
    hex(hmac_sha256(key, encode_utf8(to_sign)))
}

/// The value of the `Authorization` header.
pub open spec fn authorization_text(
    access_key: Seq<char>,
    scope: Seq<char>,
    signed: Seq<char>,
    signature: Seq<char>,
) -> Seq<char> {
    "AWS4-HMAC-SHA256 Credential="@ + access_key + seq!['/'] + scope + ", SignedHeaders="@ + signed
        + ", Signature="@ + signature
}

/// The signature of a request at the moment `t`.
pub open spec fn v4_signature(
    method: Seq<char>,
    path: Seq<char>,
    query: Seq<char>,
    entries: Seq<(Seq<char>, Seq<char>)>,
    region: Seq<char>,
    service: Seq<char>,
    secret_key: Seq<char>,
    payload_hash: Seq<char>,
    t: Civil,
) -> Seq<char> {
    let request = canonical_request_text(method, path, query, entries, payload_hash);
    let scope = scope_text(date_text(t), region, service);
    let to_sign = string_to_sign_text(time_text(t), scope, sha256_hex(encode_utf8(request)));
    signature_text(signing_key(secret_key, date_text(t), region, service), to_sign)
}

/// The value of the `Authorization` header of a request at the moment
/// `t`.
pub open spec fn v4_authorization(
    method: Seq<char>,
    path: Seq<char>,
    query: Seq<char>,
    entries: Seq<(Seq<char>, Seq<char>)>,
    region: Seq<char>,
    service: Seq<char>,
    access_key: Seq<char>,
    secret_key: Seq<char>,
    payload_hash: Seq<char>,
    t: Civil,
) -> Seq<char> {
    authorization_text(
        access_key,
        scope_text(date_text(t), region, service),
        signed_names(entries),
        v4_signature(method, path, query, entries, region, service, secret_key, payload_hash, t),
    )
}

/// Appends `value` with its blanks normalised.
pub fn push_squeezed(out: &mut String, value: &str)
    ensures
        final(out)@ == old(out)@ + squeezed(value@),
{
    let mut started = false;
    let mut pending = false;
    for c in it: value.chars()
        invariant
            it.seq() == value@,
            out@ == old(out)@ + squeezed(value@.take(it.index() as int)),
            started == (squeezed(value@.take(it.index() as int)).len() > 0),
            pending == (it.index() > 0 && is_blank(value@[it.index() - 1])),
    {
        proof {
            let t = value@.take(it.index() + 1);
            assert(t.drop_last() =~= value@.take(it.index() as int));
            assert(t.last() == c);
            if it.index() > 0 {
                assert(t[t.len() - 2] == value@[it.index() - 1]);
            }
        }
        let ghost before = out@;
        if c == ' ' || c == '\t' {
            pending = true;
        } else {
            if started && pending {
                out.push(' ');
            }
            out.push(c);
            started = true;
            pending = false;
            assert(out@ =~= old(out)@ + squeezed(value@.take(it.index() + 1)));
        }
    }
    assert(value@.take(value@.len() as int) == value@);
}

/// The canonical headers of `headers`: one line a header, in ascending
/// order of the names, each as the name in lower case, `:` and the value
/// with its blanks normalised.
pub fn canonical_headers(headers: &HeaderMap) -> (s: String)
    ensures
        s@ == header_block(headers.entries()),
        headers.wf(),
{
    let mut s = String::new();
    let n = headers.len();
    let mut i: usize = 0;
    while i < n
        invariant
            i <= n,
            n == headers.entries().len(),
            s@ == header_block(headers.entries().take(i as int)),
        decreases n - i,
    {
        let ghost before = s@;
        if i > 0 {
            s.push('\n');
        }
        s.append(headers.name(i));
        s.push(':');
        push_squeezed(&mut s, headers.value(i));
        proof {
            let e = headers.entries();
            let t = e.take(i as int + 1);
            assert(t.drop_last() =~= e.take(i as int));
            assert(t.last() == e[i as int]);
            if i == 0 {
                assert(t[0] == e[0]);
                assert(s@ =~= header_line(e[0]));
            } else {
                assert(s@ =~= before + seq!['\n'] + header_line(e[i as int]));
            }
        }
        i += 1;
    }
    assert(headers.entries().take(n as int) == headers.entries());
    s
}

/// The signed headers of `headers`: the names in lower case and in
/// ascending order, with `;` between each two.
pub fn signed_headers(headers: &HeaderMap) -> (s: String)
    ensures
        s@ == signed_names(headers.entries()),
        headers.wf(),
{
    let mut s = String::new();
    let n = headers.len();
    let mut i: usize = 0;
    while i < n
        invariant
            i <= n,
            n == headers.entries().len(),
            s@ == signed_names(headers.entries().take(i as int)),
        decreases n - i,
    {
        let ghost before = s@;
        if i > 0 {
            s.push(';');
        }
        s.append(headers.name(i));
        proof {
            let e = headers.entries();
            let t = e.take(i as int + 1);
            assert(t.drop_last() =~= e.take(i as int));
            assert(t.last() == e[i as int]);
            if i == 0 {
                assert(t[0] == e[0]);
                assert(s@ =~= e[0].0);
            } else {
                assert(s@ =~= before + seq![';'] + e[i as int].0);
            }
        }
        i += 1;
    }
    assert(headers.entries().take(n as int) == headers.entries());
    s
}

/// The canonical request of a request with the given method, path, query
/// string, headers and payload hash.
pub fn canonical_request(
    method: &str,
    path: &str,
    query: &str,
    headers: &HeaderMap,
    payload_hash: &str,
) -> (s: String)
    ensures
        s@ == canonical_request_text(method@, path@, query@, headers.entries(), payload_hash@),
        headers.wf(),
{
    let mut s = String::from_str(method);
    s.push('\n');
    s.append(path);
    s.push('\n');
    s.append(query);
    s.push('\n');
    let block = canonical_headers(headers);
    s.append(block.as_str());
    s.push('\n');
    s.push('\n');
    let names = signed_headers(headers);
    s.append(names.as_str());
    s.push('\n');
    s.append(payload_hash);
    assert(s@ =~= canonical_request_text(
        method@,
        path@,
        query@,
        headers.entries(),
        payload_hash@,
    ));
    s
}

/// The credential scope of the day of `date`.
pub fn credential_scope(date: &Timestamp, region: &str, service_name: &str) -> (s: String)
    ensures
        s@ == scope_text(date_text(date@), region@, service_name@),
        valid_civil(date@),
{
    let mut s = aws_format_date(date);
    s.push('/');
    s.append(region);
    s.push('/');
    s.append(service_name);
    s.append("/aws4_request");
    s
}

/// The string to sign at the moment `date`, for a scope and the digest
/// of a canonical request in hexadecimal.
pub fn string_to_sign(date: &Timestamp, scope: &str, request_digest: &str) -> (s: String)
    ensures
        s@ == string_to_sign_text(time_text(date@), scope@, request_digest@),
        valid_civil(date@),
{
    let mut s = String::from_str("AWS4-HMAC-SHA256\n");
    let time = aws_format_time(date);
    s.append(time.as_str());
    s.push('\n');
    s.append(scope);
    s.push('\n');
    s.append(request_digest);
    s
}

/// The signing key of a secret key for a day, a region and a service.
pub fn derive_signing_key(secret_key: &str, date: &Timestamp, region: &str, service_name: &str) -> (key:
    Vec<u8>)
    ensures
        key@ == signing_key(secret_key@, date_text(date@), region@, service_name@),
        valid_civil(date@),
{
    let mut first = String::from_str("AWS4");
    first.append(secret_key);
    let day = aws_format_date(date);
    let k_date = hmac_sha256_code(first.as_str().as_bytes(), day.as_str().as_bytes());
    let k_region = hmac_sha256_code(k_date.as_slice(), region.as_bytes());
    let k_service = hmac_sha256_code(k_region.as_slice(), service_name.as_bytes());
    hmac_sha256_code(k_service.as_slice(), "aws4_request".as_bytes())
}

/// The signature of `to_sign` under `key`, in lower-case hexadecimal.
pub fn sign(key: &[u8], to_sign: &str) -> (s: String)
    ensures
        s@ == signature_text(key@, to_sign@),
{
    let code = hmac_sha256_code(key, to_sign.as_bytes());
    hex_lower(code.as_slice())
}

/// The value of the `Authorization` header for an access key, a scope,
/// the signed headers and a signature.
pub fn authorization_header(access_key: &str, scope: &str, signed: &str, signature: &str) -> (s:
    String)
    ensures
        s@ == authorization_text(access_key@, scope@, signed@, signature@),
{
    let mut s = String::from_str("AWS4-HMAC-SHA256 Credential=");
    s.append(access_key);
    s.push('/');
    s.append(scope);
    s.append(", SignedHeaders=");
    s.append(signed);
    s.append(", Signature=");
    s.append(signature);
    s
}

/// Signs a request: the value of its `Authorization` header. `path` and
/// `query` are taken as they go into the URL, `headers` are all signed,
/// and `content_sha256` is the payload hash.
pub fn sign_v4_authorization(
    method: &str,
    path: &str,
    query: &str,
    region: &str,
    service_name: &str,
    headers: &HeaderMap,
    access_key: &str,
    secret_key: &str,
    content_sha256: &str,
    date: &Timestamp,
) -> (auth: String)
    ensures
        auth@ == v4_authorization(
            method@,
            path@,
            query@,
            headers.entries(),
            region@,
            service_name@,
            access_key@,
            secret_key@,
            content_sha256@,
            date@,
        ),
        headers.wf(),
        valid_civil(date@),
{
    let request = canonical_request(method, path, query, headers, content_sha256);
    let digest = sha256_hash(request.as_str().as_bytes());
    let scope = credential_scope(date, region, service_name);
    let to_sign = string_to_sign(date, scope.as_str(), digest.as_str());
    let key = derive_signing_key(secret_key, date, region, service_name);
    let signature = sign(key.as_slice(), to_sign.as_str());
    let signed = signed_headers(headers);
    authorization_header(access_key, scope.as_str(), signed.as_str(), signature.as_str())
}

/// Signing is a function of its inputs: the same request, credentials
/// and moment give the same `Authorization` header.
pub proof fn law_same_moment_same_header(
    method: Seq<char>,
    path: Seq<char>,
    query: Seq<char>,
    entries: Seq<(Seq<char>, Seq<char>)>,
    region: Seq<char>,
    service: Seq<char>,
    access_key: Seq<char>,
    secret_key: Seq<char>,
    payload_hash: Seq<char>,
    t1: Civil,
    t2: Civil,
)
    requires
        t1 == t2,
    ensures
        v4_authorization(
            method,
            path,
            query,
            entries,
            region,
            service,
            access_key,
            secret_key,
            payload_hash,
            t1,
        ) == v4_authorization(
            method,
            path,
            query,
            entries,
            region,
            service,
            access_key,
            secret_key,
            payload_hash,
            t2,
        ),
{
}

/// Two moments that differ give different strings to sign, whatever the
/// scope and the request are.
pub proof fn law_string_to_sign_differs(
    t1: Civil,
    t2: Civil,
    scope1: Seq<char>,
    scope2: Seq<char>,
    digest1: Seq<char>,
    digest2: Seq<char>,
)
    requires
        valid_civil(t1),
        valid_civil(t2),
        t1 != t2,
    ensures
        string_to_sign_text(time_text(t1), scope1, digest1) != string_to_sign_text(
            time_text(t2),
            scope2,
            digest2,
        ),
{
    let a = string_to_sign_text(time_text(t1), scope1, digest1);
    let b = string_to_sign_text(time_text(t2), scope2, digest2);
    lemma_time_text_len(t1);
    lemma_time_text_len(t2);
    let n = "AWS4-HMAC-SHA256\n"@.len() as int;
    assert(a.subrange(n, n + 16) =~= time_text(t1));
    assert(b.subrange(n, n + 16) =~= time_text(t2));
    if a == b {
        lemma_time_text_injective(t1, t2);
    }
}

/// The signed headers are made of the names alone.
pub proof fn lemma_signed_names_by_keys(
    a: Seq<(Seq<char>, Seq<char>)>,
    b: Seq<(Seq<char>, Seq<char>)>,
)
    requires
        crate::strmap::keys_of(a) == crate::strmap::keys_of(b),
    ensures
        signed_names(a) == signed_names(b),
    decreases a.len(),
{
    let ka = crate::strmap::keys_of(a);
    let kb = crate::strmap::keys_of(b);
    assert(a.len() == ka.len() && b.len() == kb.len());
    if a.len() == 1 {
        assert(ka[0] == a[0].0 && kb[0] == b[0].0);
    } else if a.len() > 1 {
        let n = a.len() - 1;
        assert(ka[n] == a[n].0 && kb[n] == b[n].0);
        assert(crate::strmap::keys_of(a.drop_last()) =~= ka.drop_last());
        assert(crate::strmap::keys_of(b.drop_last()) =~= kb.drop_last());
        lemma_signed_names_by_keys(a.drop_last(), b.drop_last());
    }
}

/// The day that a header was signed on can be read off it: two
/// `Authorization` headers for one access key that are the same are of
/// the same day.
pub proof fn lemma_header_shows_day(
    access_key: Seq<char>,
    t1: Civil,
    t2: Civil,
    region1: Seq<char>,
    region2: Seq<char>,
    service1: Seq<char>,
    service2: Seq<char>,
    signed1: Seq<char>,
    signed2: Seq<char>,
    signature1: Seq<char>,
    signature2: Seq<char>,
)
    requires
        valid_civil(t1),
        valid_civil(t2),
        authorization_text(
            access_key,
            scope_text(date_text(t1), region1, service1),
            signed1,
            signature1,
        ) == authorization_text(
            access_key,
            scope_text(date_text(t2), region2, service2),
            signed2,
            signature2,
        ),
    ensures
        t1.year == t2.year,
        t1.month == t2.month,
        t1.day == t2.day,
{
    let a = authorization_text(
        access_key,
        scope_text(date_text(t1), region1, service1),
        signed1,
        signature1,
    );
    let b = authorization_text(
        access_key,
        scope_text(date_text(t2), region2, service2),
        signed2,
        signature2,
    );
    lemma_date_text_len(t1);
    lemma_date_text_len(t2);
    let p = ("AWS4-HMAC-SHA256 Credential="@ + access_key + seq!['/']).len() as int;
    assert(a.subrange(p, p + 8) =~= date_text(t1));
    assert(b.subrange(p, p + 8) =~= date_text(t2));
    lemma_date_text_injective(t1, t2);
}

/// A request that is signed on two different days gets two different
/// `Authorization` headers, whatever its headers are on either day.
pub proof fn law_other_day_other_header(
    method: Seq<char>,
    path: Seq<char>,
    query: Seq<char>,
    entries1: Seq<(Seq<char>, Seq<char>)>,
    entries2: Seq<(Seq<char>, Seq<char>)>,
    region: Seq<char>,
    service: Seq<char>,
    access_key: Seq<char>,
    secret_key: Seq<char>,
    payload_hash: Seq<char>,
    t1: Civil,
    t2: Civil,
)
    requires
        valid_civil(t1),
        valid_civil(t2),
        t1.year != t2.year || t1.month != t2.month || t1.day != t2.day,
    ensures
        v4_authorization(
            method,
            path,
            query,
            entries1,
            region,
            service,
            access_key,
            secret_key,
            payload_hash,
            t1,
        ) != v4_authorization(
            method,
            path,
            query,
            entries2,
            region,
            service,
            access_key,
            secret_key,
            payload_hash,
            t2,
        ),
{
    let a = v4_authorization(
        method,
        path,
        query,
        entries1,
        region,
        service,
        access_key,
        secret_key,
        payload_hash,
        t1,
    );
    let b = v4_authorization(
        method,
        path,
        query,
        entries2,
        region,
        service,
        access_key,
        secret_key,
        payload_hash,
        t2,
    );
    if a == b {
        lemma_header_shows_day(
            access_key,
            t1,
            t2,
            region,
            region,
            service,
            service,
            signed_names(entries1),
            signed_names(entries2),
            v4_signature(method, path, query, entries1, region, service, secret_key, payload_hash, t1),
            v4_signature(method, path, query, entries2, region, service, secret_key, payload_hash, t2),
        );
    }
}

/// A request that is signed at two moments of one day, with headers of
/// the same names, gets the same `Authorization` header exactly when
/// the two signatures are the same. The signatures are codes of two
/// different strings, by [`law_string_to_sign_differs`]; that the codes
/// differ as well is a property of the hash function, which is not
/// stated here.
pub proof fn law_same_day_header_by_signature(
    method: Seq<char>,
    path: Seq<char>,
    query: Seq<char>,
    entries1: Seq<(Seq<char>, Seq<char>)>,
    entries2: Seq<(Seq<char>, Seq<char>)>,
    region: Seq<char>,
    service: Seq<char>,
    access_key: Seq<char>,
    secret_key: Seq<char>,
    payload_hash: Seq<char>,
    t1: Civil,
    t2: Civil,
)
    requires
        valid_civil(t1),
        valid_civil(t2),
        t1.year == t2.year && t1.month == t2.month && t1.day == t2.day,
        signed_names(entries1) == signed_names(entries2),
    ensures
        (v4_authorization(
            method,
            path,
            query,
            entries1,
            region,
            service,
            access_key,
            secret_key,
            payload_hash,
            t1,
        ) == v4_authorization(
            method,
            path,
            query,
            entries2,
            region,
            service,
            access_key,
            secret_key,
            payload_hash,
            t2,
        )) <==> (v4_signature(
            method,
            path,
            query,
            entries1,
            region,
            service,
            secret_key,
            payload_hash,
            t1,
        ) == v4_signature(
            method,
            path,
            query,
            entries2,
            region,
            service,
            secret_key,
            payload_hash,
            t2,
        )),
{
    let s1 = v4_signature(method, path, query, entries1, region, service, secret_key, payload_hash, t1);
    let s2 = v4_signature(method, path, query, entries2, region, service, secret_key, payload_hash, t2);
    let scope = scope_text(date_text(t1), region, service);
    assert(date_text(t1) == date_text(t2));
    let signed = signed_names(entries1);
    let a = authorization_text(access_key, scope, signed, s1);
    let b = authorization_text(access_key, scope, signed, s2);
    let q = ("AWS4-HMAC-SHA256 Credential="@ + access_key + seq!['/'] + scope
        + ", SignedHeaders="@ + signed + ", Signature="@).len() as int;
    assert(a.subrange(q, a.len() as int) =~= s1);
    assert(b.subrange(q, b.len() as int) =~= s2);
}

pub proof fn lemma_date_text_len(t: Civil)
    ensures
        date_text(t).len() == 8,
{
    lemma_padded_len(t.year as nat, 4);
    lemma_padded_len(t.month as nat, 2);
    lemma_padded_len(t.day as nat, 2);
}

pub proof fn lemma_time_text_len(t: Civil)
    ensures
        time_text(t).len() == 16,
{
    lemma_date_text_len(t);
    lemma_padded_len(t.hour as nat, 2);
    lemma_padded_len(t.minute as nat, 2);
    lemma_padded_len(t.second as nat, 2);
}

} // verus!
