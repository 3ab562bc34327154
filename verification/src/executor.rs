//! The request builder: collects method, target, headers, query
//! parameters and body, and turns them into a signed request that a
//! transport can carry.
use vstd::prelude::*;
use vstd::string::*;
use crate::client::{path_text, Credentials, CredentialsView, Method, Minio, MinioView};
use bytes::Bytes;
use crate::digest::{sha256_hash, sha256_hex, EMPTY_CONTENT_SHA256};
use crate::payload::{bytes_as_slice, bytes_empty, bytes_len, bytes_of};
use crate::errors::{Error, S3Error, ValueError};
use crate::headers::{is_header_value, lower, HeaderMap};
use crate::query::{query_text, with_all, parsed_query, QueryMap};
use crate::signer::{sign_v4_authorization, v4_authorization};
use crate::strmap::{entries_of, lemma_entries_of};
use crate::text::{decimal, decimal_string};
use crate::time::{aws_format_time, time_text, valid_civil, Civil, Timestamp};
use crate::validate::{check_target, target_fault};

verus! {

/// What a request under construction holds.
pub struct RequestView {
    pub method: Method,
    pub region: Seq<char>,
    pub bucket_name: Option<Seq<char>>,
    pub object_name: Option<Seq<char>>,
    pub body: Option<Seq<u8>>,
    pub headers: Map<Seq<char>, Seq<char>>,
    pub querys: Map<Seq<char>, Seq<char>>,
}

/// A request with a method and a region and nothing else.
pub open spec fn fresh_request(method: Method, region: Seq<char>) -> RequestView {
    RequestView {
        method,
        region,
        bucket_name: None,
        object_name: None,
        body: None,
        headers: Map::empty(),
        querys: Map::empty(),
    }
}

/// The headers `h` with `name` set to `value`, where both can stand in a
/// header; `h` itself where not.
pub open spec fn with_header(
    h: Map<Seq<char>, Seq<char>>,
    name: Seq<char>,
    value: Seq<char>,
) -> Map<Seq<char>, Seq<char>> {
    if crate::headers::is_header_name(name) && is_header_value(value) {
        h.insert(lower(name), value)
    } else {
        h
    }
}

/// Builds one request of a client. Every setter takes the builder and
/// gives it back, so that calls can be chained; [`BaseExecutor::send`]
/// ends the chain.
pub struct BaseExecutor<'a, P> {
    method: Method,
    region: String,
    bucket_name: Option<String>,
    object_name: Option<String>,
    body: Option<Bytes>,
    headers: HeaderMap,
    querys: QueryMap,
    client: &'a Minio<P>,
}

impl<'a, P> View for BaseExecutor<'a, P> {
    type V = RequestView;

    closed spec fn view(&self) -> RequestView {
        RequestView {
            method: self.method,
            region: self.region@,
            bucket_name: crate::client::opt_string_view(self.bucket_name),
            object_name: crate::client::opt_string_view(self.object_name),
            body: match self.body {
                Some(b) => Some(bytes_of(b)),
                None => None,
            },
            headers: self.headers@,
            querys: self.querys@,
        }
    }
}

/// A request that is ready for the transport.
pub struct SignedRequest {
    pub method: Method,
    pub url: String,
    pub headers: HeaderMap,
    pub body: Bytes,
}

/// The payload hash of a body: its SHA-256 digest in hexadecimal, or the
/// digest of the empty body where there is none.
pub open spec fn payload_hash(body: Option<Seq<u8>>) -> Seq<char> {
    match body {
        Some(b) => sha256_hex(b),
        None => EMPTY_CONTENT_SHA256@,
    }
}

/// The bytes of a body; none where there is no body.
pub open spec fn body_bytes(body: Option<Seq<u8>>) -> Seq<u8> {
    match body {
        Some(b) => b,
        None => Seq::empty(),
    }
}

/// What is wrong with the credentials, if anything: the access key is
/// empty, or the session token cannot stand in a header.
pub open spec fn credentials_fault(c: CredentialsView) -> bool {
    c.access_key.len() == 0 || (c.session_token is Some && !is_header_value(c.session_token->0))
}

/// The headers that are signed: those of the request, and over them the
/// agent, the length of the body where it is not empty, the host, the
/// payload hash, the moment and, where there is one, the session token.
pub open spec fn wrapped_headers(
    h: Map<Seq<char>, Seq<char>>,
    client: MinioView,
    body: Option<Seq<u8>>,
    time: Seq<char>,
    token: Option<Seq<char>>,
) -> Map<Seq<char>, Seq<char>> {
    let h1 = h.insert(lower("User-Agent"@), client.agent);
    let h2 = if body_bytes(body).len() > 0 {
        h1.insert(lower("Content-Length"@), decimal(body_bytes(body).len()))
    } else {
        h1
    };
    let h3 = h2.insert(lower("Host"@), client.chost).insert(
        lower("X-Amz-Content-Sha256"@),
        payload_hash(body),
    ).insert(lower("X-Amz-Date"@), time);
    match token {
        Some(t) => h3.insert(lower("X-Amz-Security-Token"@), t),
        None => h3,
    }
}

/// The value of the `Authorization` header of the request `r` of the
/// client `client`, signed with `c` at the moment `t`.
pub open spec fn request_authorization(
    r: RequestView,
    client: MinioView,
    c: CredentialsView,
    t: Civil,
) -> Seq<char> {
    v4_authorization(
        r.method.text(),
        path_text(r.bucket_name, r.object_name),
        query_text(entries_of(r.querys)),
        entries_of(wrapped_headers(r.headers, client, r.body, time_text(t), c.session_token)),
        r.region,
        "s3"@,
        c.access_key,
        c.secret_key,
        payload_hash(r.body),
        t,
    )
}

/// The signature of the request `r` of the client `client`, signed with
/// `c` at the moment `t`.
pub open spec fn request_signature(
    r: RequestView,
    client: MinioView,
    c: CredentialsView,
    t: Civil,
) -> Seq<char> {
    crate::signer::v4_signature(
        r.method.text(),
        path_text(r.bucket_name, r.object_name),
        query_text(entries_of(r.querys)),
        entries_of(wrapped_headers(r.headers, client, r.body, time_text(t), c.session_token)),
        r.region,
        "s3"@,
        c.secret_key,
        payload_hash(r.body),
        t,
    )
}

/// Why the request `r` cannot be sent, if it cannot: the first of the
/// faults of its target, of the credentials, and of the `Authorization`
/// header, which must itself be able to stand in a header.
pub open spec fn send_fault(r: RequestView, client: MinioView, c: CredentialsView, t: Civil) -> Option<
    ValueError,
> {
    if target_fault(r.bucket_name, r.object_name) is Some {
        target_fault(r.bucket_name, r.object_name)
    } else if credentials_fault(c) {
        Some(ValueError::InvalidCredentials)
    } else if !is_header_value(request_authorization(r, client, c, t)) {
        Some(ValueError::InvalidAuthorization)
    } else {
        None
    }
}

/// The URL of the request `r`: the client's scheme and host, the path,
/// `?` and the query string.
pub open spec fn request_url(r: RequestView, client: MinioView) -> Seq<char> {
    client.host + path_text(r.bucket_name, r.object_name) + seq!['?'] + query_text(
        entries_of(r.querys),
    )
}

/// Whether a status is one of success: 200 to 299.
pub open spec fn is_success(status: u16) -> bool {
    200 <= status < 300
}

/// Whether a status is one of success: 200 to 299.
pub fn status_is_success(status: u16) -> (b: bool)
    ensures
        b == is_success(status),
{
    200 <= status && status < 300
}

/// What a checked send makes of a response that is no success: the
/// service's own words, where its body could be read as such, and the
/// reading's failure where not.
pub fn service_failure(parsed: Result<S3Error, String>) -> (e: Error)
    ensures
        e == match parsed {
            Ok(s) => Error::S3Error(s),
            Err(x) => Error::XmlError(x),
        },
{
    match parsed {
        Ok(s) => Error::S3Error(s),
        Err(x) => Error::XmlError(x),
    }
}

impl<'a, P> BaseExecutor<'a, P> {
    /// The client that the request belongs to.
    pub closed spec fn client(&self) -> &'a Minio<P> {
        self.client
    }

    /// A request of `client` with the method `method`, for the client's
    /// region, and nothing else set.
    pub fn new(method: Method, client: &'a Minio<P>) -> (e: Self)
        ensures
            e@ == fresh_request(method, client@.region),
            e.client() == client,
    {
        BaseExecutor {
            method,
            region: String::from_str(client.region()),
            bucket_name: None,
            object_name: None,
            body: None,
            headers: HeaderMap::new(),
            client,
            querys: QueryMap::new(),
        }
    }

    /// Sets the method.
    pub fn method(self, method: Method) -> (e: Self)
        ensures
            e@ == (RequestView { method, ..self@ }),
            e.client() == self.client(),
    {
        let mut this = self;
        this.method = method;
        this
    }

    /// Sets the bucket.
    pub fn bucket_name(self, name: &str) -> (e: Self)
        ensures
            e@ == (RequestView { bucket_name: Some(name@), ..self@ }),
            e.client() == self.client(),
    {
        let mut this = self;
        this.bucket_name = Some(String::from_str(name));
        this
    }

    /// Sets the object.
    pub fn object_name(self, name: &str) -> (e: Self)
        ensures
            e@ == (RequestView { object_name: Some(name@), ..self@ }),
            e.client() == self.client(),
    {
        let mut this = self;
        this.object_name = Some(String::from_str(name));
        this
    }

    /// Sets the region that the request is signed for.
    pub fn region(self, region: &str) -> (e: Self)
        ensures
            e@ == (RequestView { region: region@, ..self@ }),
            e.client() == self.client(),
    {
        let mut this = self;
        this.region = String::from_str(region);
        this
    }

    /// Sets the body.
    pub fn body(self, body: Bytes) -> (e: Self)
        ensures
            e@ == (RequestView { body: Some(bytes_of(body)), ..self@ }),
            e.client() == self.client(),
    {
        let mut this = self;
        this.body = Some(body);
        this
    }

    /// Puts `header` in place of the headers set so far.
    pub fn headers(self, header: HeaderMap) -> (e: Self)
        ensures
            e@ == (RequestView { headers: header@, ..self@ }),
            e.client() == self.client(),
    {
        let mut this = self;
        this.headers = header;
        this
    }

    /// Sets one header; a name or a value that cannot stand in a header
    /// changes nothing.
    pub fn header(self, key: &str, value: &str) -> (e: Self)
        ensures
            e@ == (RequestView { headers: with_header(self@.headers, key@, value@), ..self@ }),
            e.client() == self.client(),
    {
        let mut this = self;
        this.headers.insert(key, value);
        this
    }

    /// Sets every header of `header` over those set so far.
    pub fn headers_merge(self, header: &HeaderMap) -> (e: Self)
        ensures
            e@ == (RequestView { headers: self@.headers.union_prefer_right(header@), ..self@ }),
            e.client() == self.client(),
    {
        let mut this = self;
        this.headers.merge(header);
        this
    }

    /// Sets every header of `header`, where there is one, over those set
    /// so far.
    pub fn headers_merge2(self, header: Option<&HeaderMap>) -> (e: Self)
        ensures
            e@ == (RequestView {
                headers: match header {
                    Some(h) => self@.headers.union_prefer_right(h@),
                    None => self@.headers,
                },
                ..self@
            }),
            e.client() == self.client(),
    {
        match header {
            Some(h) => self.headers_merge(h),
            None => self,
        }
    }

    /// Puts `querys` in place of the query parameters set so far.
    pub fn querys(self, querys: QueryMap) -> (e: Self)
        ensures
            e@ == (RequestView { querys: querys@, ..self@ }),
            e.client() == self.client(),
    {
        let mut this = self;
        this.querys = querys;
        this
    }

    /// Sets every parameter of `querys` over those set so far.
    pub fn querys_merge(self, querys: QueryMap) -> (e: Self)
        ensures
            e@ == (RequestView { querys: self@.querys.union_prefer_right(querys@), ..self@ }),
            e.client() == self.client(),
    {
        let mut this = self;
        this.querys.merge(querys);
        this
    }

    /// Sets one query parameter.
    pub fn query(self, key: &str, value: &str) -> (e: Self)
        ensures
            e@ == (RequestView { querys: self@.querys.insert(key@, value@), ..self@ }),
            e.client() == self.client(),
    {
        let mut this = self;
        this.querys.insert(String::from_str(key), String::from_str(value));
        this
    }

    /// Sets the parameters that a query string names, as
    /// [`QueryMap::merge_str`] reads it.
    pub fn query_string(self, query_str: &str) -> (e: Self)
        ensures
            e@ == (RequestView {
                querys: with_all(self@.querys, parsed_query(query_str@)),
                ..self@
            }),
            e.client() == self.client(),
    {
        let mut this = self;
        this.querys.merge_str(query_str);
        this
    }

    /// Hands the builder to `apply` and gives back what it returns.
    pub fn apply<F: FnOnce(Self) -> Self>(self, apply: F) -> (e: Self)
        requires
            apply.requires((self,)),
        ensures
            apply.ensures((self,), e),
    {
        apply(self)
    }

    /// Ends the chain: checks the target, hashes the body, sets the
    /// headers that every request carries, signs with `credentials` at the
    /// moment `date`, and gives the request that the transport is to carry.
    /// Nothing has been sent when this returns.
    pub fn send(self, credentials: &Credentials, date: &Timestamp) -> (r: Result<
        SignedRequest,
        ValueError,
    >)
        ensures
            valid_civil(date@),
            match r {
                Ok(s) => {
                    &&& send_fault(self@, self.client()@, credentials@, date@) is None
                    &&& s.method == self@.method
                    &&& s.url@ == request_url(self@, self.client()@)
                    &&& bytes_of(s.body) == body_bytes(self@.body)
                    &&& s.headers@ == wrapped_headers(
                        self@.headers,
                        self.client()@,
                        self@.body,
                        time_text(date@),
                        credentials@.session_token,
                    ).insert(
                        lower("Authorization"@),
                        request_authorization(self@, self.client()@, credentials@, date@),
                    )
                },
                Err(e) => send_fault(self@, self.client()@, credentials@, date@) == Some(e),
            },
    {
        let ghost me = self@;
        let ghost cl = self.client()@;
        let bucket: Option<&str> = match &self.bucket_name {
            Some(b) => Some(b.as_str()),
            None => None,
        };
        let object: Option<&str> = match &self.object_name {
            Some(o) => Some(o.as_str()),
            None => None,
        };
        let time = aws_format_time(date);
        match check_target(bucket, object) {
            Ok(_) => {},
            Err(e) => {
                return Err(e);
            },
        }
        if credentials.access_key().is_empty() {
            return Err(ValueError::InvalidCredentials);
        }
        let token = credentials.session_token();
        if let Some(t) = token {
            if !crate::headers::check_header_value(t) {
                return Err(ValueError::InvalidCredentials);
            }
        }
        let hash = match &self.body {
            Some(b) => sha256_hash(bytes_as_slice(b)),
            None => String::from_str(EMPTY_CONTENT_SHA256),
        };
        let length: usize = match &self.body {
            Some(b) => bytes_len(b),
            None => 0,
        };
        let mut headers = self.headers.duplicate();
        let agent = self.client.agent();
        let chost = self.client.chost();
        proof {
            lemma_fixed_names();
            lemma_time_is_header_value(date@);
            lemma_hash_is_header_value(me.body);
        }
        headers.insert("User-Agent", agent);
        if length > 0 {
            let text = decimal_string(length as u64);
            proof {
                lemma_decimal_is_header_value(length as nat);
            }
            headers.insert("Content-Length", text.as_str());
        }
        headers.insert("Host", chost);
        headers.insert("X-Amz-Content-Sha256", hash.as_str());
        headers.insert("X-Amz-Date", time.as_str());
        if let Some(t) = token {
            headers.insert("X-Amz-Security-Token", t);
        }
        assert(headers@ == wrapped_headers(
            me.headers,
            cl,
            me.body,
            time_text(date@),
            credentials@.session_token,
        ));
        let mut path = String::new();
        crate::client::push_path(&mut path, bucket, object);
        let query = self.querys.to_query_string();
        proof {
            lemma_entries_of(self.querys.entries());
            lemma_entries_of(headers.entries());
        }
        let auth = sign_v4_authorization(
            self.method.as_str(),
            path.as_str(),
            query.as_str(),
            self.region.as_str(),
            "s3",
            &headers,
            credentials.access_key(),
            credentials.secret_key(),
            hash.as_str(),
            date,
        );
        assert(auth@ == request_authorization(me, cl, credentials@, date@));
        if !headers.insert("Authorization", auth.as_str()) {
            return Err(ValueError::InvalidAuthorization);
        }
        let mut url = String::from_str(self.client.host());
        url.append(path.as_str());
        url.push('?');
        url.append(query.as_str());
        let body = match self.body {
            Some(b) => b,
            None => bytes_empty(),
        };
        assert(bytes_of(body) =~= body_bytes(me.body));
        Ok(SignedRequest { method: self.method, url, headers, body })
    }
}

/// A request that is signed on two different days gets two different
/// `Authorization` headers.
pub proof fn law_request_signed_other_day(
    r: RequestView,
    client: MinioView,
    c: CredentialsView,
    t1: Civil,
    t2: Civil,
)
    requires
        valid_civil(t1),
        valid_civil(t2),
        t1.year != t2.year || t1.month != t2.month || t1.day != t2.day,
    ensures
        request_authorization(r, client, c, t1) != request_authorization(r, client, c, t2),
{
    crate::signer::law_other_day_other_header(
        r.method.text(),
        path_text(r.bucket_name, r.object_name),
        query_text(entries_of(r.querys)),
        entries_of(wrapped_headers(r.headers, client, r.body, time_text(t1), c.session_token)),
        entries_of(wrapped_headers(r.headers, client, r.body, time_text(t2), c.session_token)),
        r.region,
        "s3"@,
        c.access_key,
        c.secret_key,
        payload_hash(r.body),
        t1,
        t2,
    );
}

/// A request that is signed at two moments of one day gets the same
/// `Authorization` header exactly when its two signatures are the same.
/// The signatures are codes of two different strings where the moments
/// differ; that the codes differ as well is a property of the hash
/// function, which is not stated here.
pub proof fn law_request_signed_same_day(
    r: RequestView,
    client: MinioView,
    c: CredentialsView,
    t1: Civil,
    t2: Civil,
)
    requires
        valid_civil(t1),
        valid_civil(t2),
        t1.year == t2.year && t1.month == t2.month && t1.day == t2.day,
        crate::strmap::is_listed(r.headers),
    ensures
        (request_authorization(r, client, c, t1) == request_authorization(r, client, c, t2)) <==> (
        request_signature(r, client, c, t1) == request_signature(r, client, c, t2)),
{
    let m1 = wrapped_headers(r.headers, client, r.body, time_text(t1), c.session_token);
    let m2 = wrapped_headers(r.headers, client, r.body, time_text(t2), c.session_token);
    assert(m1.dom() =~= m2.dom());
    lemma_wrapped_listed(r.headers, client, r.body, time_text(t1), c.session_token);
    lemma_wrapped_listed(r.headers, client, r.body, time_text(t2), c.session_token);
    crate::strmap::lemma_listed_entries(m1);
    crate::strmap::lemma_listed_entries(m2);
    crate::strmap::lemma_same_keys(entries_of(m1), entries_of(m2));
    crate::signer::lemma_signed_names_by_keys(entries_of(m1), entries_of(m2));
    crate::signer::law_same_day_header_by_signature(
        r.method.text(),
        path_text(r.bucket_name, r.object_name),
        query_text(entries_of(r.querys)),
        entries_of(m1),
        entries_of(m2),
        r.region,
        "s3"@,
        c.access_key,
        c.secret_key,
        payload_hash(r.body),
        t1,
        t2,
    );
}

/// The headers that are signed are finitely many where those of the
/// request are.
pub proof fn lemma_wrapped_listed(
    h: Map<Seq<char>, Seq<char>>,
    client: MinioView,
    body: Option<Seq<u8>>,
    time: Seq<char>,
    token: Option<Seq<char>>,
)
    requires
        crate::strmap::is_listed(h),
    ensures
        crate::strmap::is_listed(wrapped_headers(h, client, body, time, token)),
{
    let h1 = h.insert(lower("User-Agent"@), client.agent);
    crate::strmap::lemma_listed_insert(h, lower("User-Agent"@), client.agent);
    let h2 = if body_bytes(body).len() > 0 {
        h1.insert(lower("Content-Length"@), decimal(body_bytes(body).len()))
    } else {
        h1
    };
    if body_bytes(body).len() > 0 {
        crate::strmap::lemma_listed_insert(
            h1,
            lower("Content-Length"@),
            decimal(body_bytes(body).len()),
        );
    }
    let h3 = h2.insert(lower("Host"@), client.chost);
    crate::strmap::lemma_listed_insert(h2, lower("Host"@), client.chost);
    let h4 = h3.insert(lower("X-Amz-Content-Sha256"@), payload_hash(body));
    crate::strmap::lemma_listed_insert(h3, lower("X-Amz-Content-Sha256"@), payload_hash(body));
    let h5 = h4.insert(lower("X-Amz-Date"@), time);
    crate::strmap::lemma_listed_insert(h4, lower("X-Amz-Date"@), time);
    if token is Some {
        crate::strmap::lemma_listed_insert(h5, lower("X-Amz-Security-Token"@), token->0);
    }
}

/// The names of the headers that every request carries are header names.
pub proof fn lemma_fixed_names()
    ensures
        crate::headers::is_header_name("User-Agent"@),
        crate::headers::is_header_name("Content-Length"@),
        crate::headers::is_header_name("Host"@),
        crate::headers::is_header_name("X-Amz-Content-Sha256"@),
        crate::headers::is_header_name("X-Amz-Date"@),
        crate::headers::is_header_name("X-Amz-Security-Token"@),
        crate::headers::is_header_name("Authorization"@),
        is_header_value(EMPTY_CONTENT_SHA256@),
{
    reveal_strlit("User-Agent");
    reveal_strlit("Content-Length");
    reveal_strlit("Host");
    reveal_strlit("X-Amz-Content-Sha256");
    reveal_strlit("X-Amz-Date");
    reveal_strlit("X-Amz-Security-Token");
    reveal_strlit("Authorization");
    reveal_strlit("e3b0c44298fc1c149afbf4c8996fb92427ae41e4649b934ca495991b7852b855");
}

/// A moment's rendering can stand in a header.
pub proof fn lemma_time_is_header_value(t: Civil)
    ensures
        is_header_value(time_text(t)),
{
    crate::time::lemma_padded_digits(t.year as nat, 4);
    crate::time::lemma_padded_digits(t.month as nat, 2);
    crate::time::lemma_padded_digits(t.day as nat, 2);
    crate::time::lemma_padded_digits(t.hour as nat, 2);
    crate::time::lemma_padded_digits(t.minute as nat, 2);
    crate::time::lemma_padded_digits(t.second as nat, 2);
}

/// A payload hash can stand in a header.
pub proof fn lemma_hash_is_header_value(body: Option<Seq<u8>>)
    ensures
        is_header_value(payload_hash(body)),
{
    lemma_fixed_names();
    if body is Some {
        crate::text::lemma_hex_chars(crate::digest::sha256(body->0));
    }
}

/// A number's decimal rendering can stand in a header.
pub proof fn lemma_decimal_is_header_value(n: nat)
    ensures
        is_header_value(decimal(n)),
    decreases n,
{
    if n >= 10 {
        lemma_decimal_is_header_value(n / 10);
    }
}

} // verus!
