//! The requests of the operations on objects, and what their answers
//! mean.
use vstd::prelude::*;
use vstd::string::*;
use vstd::utf8::*;
use crate::args::{
    copy_headers, merged, range_text, text_of, with_opt_header, with_opt_query, CopySource,
    ObjectArgs,
};
use crate::client::{Method, Minio};
use crate::errors::{Error, ValueError};
use crate::executor::{fresh_request, is_success, with_header, BaseExecutor, RequestView};
use crate::headers::{lower, HeaderMap};
use crate::multipart::{
    valid_plan, PlanView, UploadPlan, MAX_MULTIPART_OBJECT_SIZE, MIN_PART_SIZE,
};
use bytes::Bytes;
use crate::operate_bucket::{absent_on, none_on_code, with_xml, xml_body};
use crate::payload::bytes_of;
use crate::text::{from_chars, str_eq, to_chars};
use crate::xml::{has_no_tag, is_tag_text, tag_text};

verus! {

/// A request on an object: bucket and object, the headers that go
/// along, the expected owner and the version, where they are named; with
/// `with_content_type`, the content type that the answer is to have;
/// with `with_sscs`, the headers of the caller's encryption key.
pub open spec fn object_request(
    method: Method,
    region: Seq<char>,
    args: ObjectArgs,
    with_sscs: bool,
    with_content_type: bool,
) -> RequestView {
    let h1 = with_opt_header(
        merged(Map::empty(), args.extra_headers),
        "x-amz-expected-bucket-owner"@,
        text_of(args.expected_bucket_owner),
    );
    let q1 = with_opt_query(Map::empty(), "versionId"@, text_of(args.version_id));
    RequestView {
        bucket_name: Some(args.bucket_name@),
        object_name: Some(args.object_name@),
        headers: if with_sscs {
            merged(h1, args.ssec_headers)
        } else {
            h1
        },
        querys: if with_content_type {
            with_opt_query(q1, "response-content-type"@, text_of(args.content_type))
        } else {
            q1
        },
        ..fresh_request(method, region)
    }
}

/// The request `r` with the range of `args` asked for, where `args`
/// names one, and the headers of the caller's encryption key.
pub open spec fn with_range(r: RequestView, args: ObjectArgs) -> RequestView {
    RequestView {
        headers: merged(
            with_opt_header(
                r.headers,
                "Range"@,
                range_text(args.offset as nat, args.length as nat),
            ),
            args.ssec_headers,
        ),
        ..r
    }
}

/// The request that copies the object `src` to `dst`: a request on
/// `dst` with its content type, or the default one, and the headers that
/// name the source.
pub open spec fn copy_request(region: Seq<char>, dst: ObjectArgs, src: CopySource) -> RequestView {
    RequestView {
        headers: with_header(
            object_request(Method::Put, region, dst, true, false).headers,
            "Content-Type"@,
            match dst.content_type {
                Some(t) => t@,
                None => DEFAULT_CONTENT_TYPE@,
            },
        ).union_prefer_right(copy_headers(src)),
        ..object_request(Method::Put, region, dst, true, false)
    }
}

/// The content type of an object of which none is named.
pub const DEFAULT_CONTENT_TYPE: &'static str = "binary/octet-stream";

/// The body that sets or lifts a legal hold.
pub open spec fn legal_hold_xml(enabled: bool) -> Seq<char> {
    if enabled {
        "<LegalHold><Status>ON</Status></LegalHold>"@
    } else {
        "<LegalHold><Status>OFF</Status></LegalHold>"@
    }
}

/// How a payload of known length is uploaded: in one request, or in
/// parts under a plan.
pub enum UploadMode {
    Single,
    Multipart(UploadPlan),
}

/// How a payload in memory is put as an object.
pub enum PutObject<'a, P> {
    /// By this one request.
    Single(BaseExecutor<'a, P>),
    /// In the parts that `plan` cuts `data` into.
    Multipart { plan: UploadPlan, data: Bytes },
}

/// How a payload of `len` bytes is uploaded: refused, where it is over
/// [`MAX_MULTIPART_OBJECT_SIZE`]; in one request, where it is not over
/// [`MIN_PART_SIZE`]; else in parts of that size.
pub fn upload_mode(len: u64) -> (r: Result<UploadMode, ValueError>)
    ensures
        match r {
            Err(e) => len > MAX_MULTIPART_OBJECT_SIZE && e == ValueError::ObjectTooLarge,
            Ok(UploadMode::Single) => len <= MIN_PART_SIZE,
            Ok(UploadMode::Multipart(plan)) => MIN_PART_SIZE < len <= MAX_MULTIPART_OBJECT_SIZE
                && plan@ == (PlanView { len: len as nat, part_size: MIN_PART_SIZE as nat })
                && valid_plan(plan@),
        },
{
    if len <= MIN_PART_SIZE {
        return Ok(UploadMode::Single);
    }
    match UploadPlan::new(len, MIN_PART_SIZE) {
        Ok(plan) => Ok(UploadMode::Multipart(plan)),
        Err(_) => Err(ValueError::ObjectTooLarge),
    }
}

/// What the service says of an object.
#[derive(Clone, Debug, PartialEq, Eq)]
pub struct ObjectStat {
    pub bucket_name: String,
    pub object_name: String,
    pub last_modified: String,
    pub etag: String,
    pub content_type: String,
    pub version_id: String,
    pub size: u64,
}

/// `s` without its double quotes.
pub open spec fn unquoted(s: Seq<char>) -> Seq<char> {
    s.filter(|c: char| c != '"')
}

/// `s` is a number in decimal: an optional `+`, then one digit or more.
pub open spec fn is_number(s: Seq<char>) -> bool {
    let digits = if s.len() > 0 && s[0] == '+' {
        s.drop_first()
    } else {
        s
    };
    digits.len() > 0 && all_digits(digits)
}

/// `s` holds decimal digits only.
pub open spec fn all_digits(s: Seq<char>) -> bool {
    forall|i: int| 0 <= i < s.len() ==> crate::validate::is_digit(#[trigger] s[i])
}

/// The value of a string of digits.
pub open spec fn digits_value(s: Seq<char>) -> nat
    decreases s.len(),
{
    if s.len() == 0 {
        0
    } else {
        digits_value(s.drop_last()) * 10 + (s.last() as nat - '0' as nat) as nat
    }
}

/// The size that a text names: its value, where it is a number that a
/// size can hold, and 0 where it is not.
pub open spec fn size_value(s: Seq<char>) -> nat {
    let digits = if s.len() > 0 && s[0] == '+' {
        s.drop_first()
    } else {
        s
    };
    if is_number(s) && digits_value(digits) <= u64::MAX {
        digits_value(digits)
    } else {
        0
    }
}

/// The value of the header `name`, or the empty text where the header is
/// not set.
pub open spec fn header_or_empty(h: Map<Seq<char>, Seq<char>>, name: Seq<char>) -> Seq<char> {
    if h.contains_key(lower(name)) {
        h[lower(name)]
    } else {
        Seq::empty()
    }
}

pub proof fn lemma_digits_grow(s: Seq<char>, k: int)
    requires
        0 <= k <= s.len(),
        all_digits(s),
    ensures
        digits_value(s.take(k)) <= digits_value(s),
    decreases s.len() - k,
{
    if k < s.len() {
        lemma_digits_grow(s, k + 1);
        let t = s.take(k + 1);
        assert(t.drop_last() =~= s.take(k));
    } else {
        assert(s.take(k) =~= s);
    }
}

/// Reads a size: the value of `text`, where it is a number in decimal
/// that a size can hold, and 0 where it is not.
pub fn parse_size(text: &str) -> (n: u64)
    ensures
        n == size_value(text@),
{
    let s = to_chars(text);
    let start: usize = if s.len() > 0 && s[0] == '+' {
        1
    } else {
        0
    };
    if s.len() == start {
        return 0;
    }
    let ghost digits = s@.skip(start as int);
    assert(digits =~= if s@.len() > 0 && s@[0] == '+' {
        s@.drop_first()
    } else {
        s@
    });
    let mut n: u64 = 0;
    let mut i: usize = start;
    while i < s.len()
        invariant
            start <= i <= s.len(),
            s@ == text@,
            digits == s@.skip(start as int),
            digits.len() > 0,
            digits == if s@.len() > 0 && s@[0] == '+' {
                s@.drop_first()
            } else {
                s@
            },
            forall|j: int| 0 <= j < i - start ==> crate::validate::is_digit(#[trigger] digits[j]),
            n == digits_value(digits.take(i - start)),
        decreases s.len() - i,
    {
        let c = s[i];
        assert(digits[i - start] == c);
        if !(c >= '0' && c <= '9') {
            assert(!crate::validate::is_digit(digits[i - start]));
            return 0;
        }
        let d = (c as u8 - 48) as u64;
        proof {
            let t = digits.take(i - start + 1);
            assert(t.drop_last() =~= digits.take(i - start));
            assert(t.last() == c);
        }
        if n > (u64::MAX - d) / 10 {
            proof {
                if is_number(text@) {
                    lemma_digits_grow(digits, i - start + 1);
                    assert(digits_value(digits.take(i - start + 1)) == n * 10 + d);
                }
            }
            return 0;
        }
        n = n * 10 + d;
        i += 1;
    }
    assert(digits.take(s.len() - start) =~= digits);
    n
}

/// `s` without its double quotes.
pub fn strip_quotes(s: &str) -> (r: String)
    ensures
        r@ == unquoted(s@),
{
    let chars = to_chars(s);
    let mut out: Vec<char> = Vec::new();
    let mut i: usize = 0;
    while i < chars.len()
        invariant
            i <= chars.len(),
            out@ == unquoted(chars@.take(i as int)),
        decreases chars.len() - i,
    {
        let c = chars[i];
        proof {
            let t = chars@.take(i as int + 1);
            assert(t.drop_last() =~= chars@.take(i as int));
            assert(t.last() == c);
            reveal(Seq::filter);
        }
        if c != '"' {
            out.push(c);
        }
        i += 1;
    }
    assert(chars@.take(chars.len() as int) == chars@);
    from_chars(&out)
}

fn header_text(headers: &HeaderMap, name: &str) -> (r: String)
    ensures
        r@ == header_or_empty(headers@, name@),
{
    match headers.get(name) {
        Some(v) => String::from_str(v),
        None => String::new(),
    }
}

/// What the answer to [`Minio::stat_object`] says of the object: nothing,
/// where the status is not one of success; else what the headers of the
/// answer say, a missing header counting as empty and a size that cannot
/// be read as 0. The tag loses its quotes.
pub fn object_stat(args: &ObjectArgs, status: u16, response_headers: &HeaderMap) -> (r: Option<
    ObjectStat,
>)
    ensures
        r is Some <==> is_success(status),
        r is Some ==> {
            let s = r->0;
            let h = response_headers@;
            &&& s.bucket_name@ == args.bucket_name@
            &&& s.object_name@ == args.object_name@
            &&& s.etag@ == unquoted(header_or_empty(h, "ETag"@))
            &&& s.size == size_value(header_or_empty(h, "Content-Length"@))
            &&& s.last_modified@ == header_or_empty(h, "Last-Modified"@)
            &&& s.content_type@ == header_or_empty(h, "Content-Type"@)
            &&& s.version_id@ == header_or_empty(h, "x-amz-version-id"@)
        },
{
    if !crate::executor::status_is_success(status) {
        return None;
    }
    let etag = header_text(response_headers, "ETag");
    let size = header_text(response_headers, "Content-Length");
    Some(
        ObjectStat {
            bucket_name: args.bucket_name.clone(),
            object_name: args.object_name.clone(),
            last_modified: header_text(response_headers, "Last-Modified"),
            etag: strip_quotes(etag.as_str()),
            content_type: header_text(response_headers, "Content-Type"),
            version_id: header_text(response_headers, "x-amz-version-id"),
            size: parse_size(size.as_str()),
        },
    )
}

/// Whether the answer to a question for the legal hold of an object says
/// that the hold is on: the text of its element `Status` is `ON`.
pub fn legal_hold_status(xml: &str) -> (r: Result<bool, Error>)
    ensures
        match r {
            Ok(on) => !has_no_tag(xml@, "Status"@) && forall|t: Seq<char>| #[trigger]
                is_tag_text(xml@, "Status"@, t) ==> on == (t == "ON"@),
            Err(Error::XmlError(x)) => has_no_tag(xml@, "Status"@) && x@ == "Status"@,
            Err(_) => false,
        },
{
    match tag_text(xml, "Status") {
        Some(t) => {
            proof {
                crate::xml::lemma_tag_text_or_none(xml@, "Status"@, t@);
                assert forall|u: Seq<char>| #[trigger]
                    is_tag_text(xml@, "Status"@, u) implies u == t@ by {
                    crate::xml::lemma_tag_text_unique(xml@, "Status"@, u, t@);
                }
            }
            Ok(str_eq(t.as_str(), "ON"))
        },
        None => Err(Error::XmlError(String::from_str("Status"))),
    }
}

/// What the answer to [`Minio::is_object_legal_hold_enabled`] means: an
/// object without a lock configuration answers with the failure
/// `NoSuchObjectLockConfiguration`, which is no failure but "no hold".
pub fn legal_hold_outcome(result: Result<bool, Error>) -> (r: Result<bool, Error>)
    ensures
        r == match absent_on(result, "NoSuchObjectLockConfiguration"@) {
            Ok(Some(on)) => Ok::<bool, Error>(on),
            Ok(None) => Ok(false),
            Err(e) => Err(e),
        },
{
    match none_on_code(result, "NoSuchObjectLockConfiguration") {
        Ok(Some(on)) => Ok(on),
        Ok(None) => Ok(false),
        Err(e) => Err(e),
    }
}

impl<P> Minio<P> {
    /// A request on an object.
    pub fn object_executor(
        &self,
        method: Method,
        args: &ObjectArgs,
        with_sscs: bool,
        with_content_type: bool,
    ) -> (e: BaseExecutor<'_, P>)
        ensures
            e@ == object_request(method, self@.region, *args, with_sscs, with_content_type),
            e.client() == self,
    {
        let e = self.executor(method).bucket_name(args.bucket_name.as_str()).object_name(
            args.object_name.as_str(),
        ).headers_merge2(args.extra_headers.as_ref());
        let e = match &args.expected_bucket_owner {
            Some(owner) => e.header("x-amz-expected-bucket-owner", owner.as_str()),
            None => e,
        };
        let e = match &args.version_id {
            Some(version_id) => e.query("versionId", version_id.as_str()),
            None => e,
        };
        let e = if with_content_type {
            match &args.content_type {
                Some(content_type) => e.query("response-content-type", content_type.as_str()),
                None => e,
            }
        } else {
            e
        };
        if with_sscs {
            e.headers_merge2(args.ssec_headers.as_ref())
        } else {
            e
        }
    }

    fn ranged<'a>(e: BaseExecutor<'a, P>, args: &ObjectArgs) -> (r: BaseExecutor<'a, P>)
        ensures
            r@ == with_range(e@, *args),
            r.client() == e.client(),
    {
        let e = match args.range() {
            Some(range) => e.header("Range", range.as_str()),
            None => e,
        };
        e.headers_merge2(args.ssec_headers.as_ref())
    }

    /// The request that copies the object `src` to `dst`.
    pub fn copy_object(&self, dst: &ObjectArgs, src: &CopySource) -> (e: BaseExecutor<'_, P>)
        ensures
            e@ == copy_request(self@.region, *dst, *src),
            e.client() == self,
    {
        let e = self.object_executor(Method::Put, dst, true, false);
        let e = match &dst.content_type {
            Some(t) => e.header("Content-Type", t.as_str()),
            None => e.header("Content-Type", DEFAULT_CONTENT_TYPE),
        };
        let extra = src.extra_headers();
        e.headers_merge(&extra)
    }

    /// The request that gets an object, or the range of it that `args`
    /// names.
    pub fn get_object(&self, args: &ObjectArgs) -> (e: BaseExecutor<'_, P>)
        ensures
            e@ == with_range(object_request(Method::Get, self@.region, *args, true, true), *args),
            e.client() == self,
    {
        Self::ranged(self.object_executor(Method::Get, args, true, true), args)
    }

    /// The request that puts `data` as an object in one piece.
    pub fn put_object_single(&self, args: &ObjectArgs, data: Bytes) -> (e: BaseExecutor<'_, P>)
        ensures
            e@ == (RequestView {
                body: Some(bytes_of(data)),
                ..with_range(object_request(Method::Put, self@.region, *args, true, true), *args)
            }),
            e.client() == self,
    {
        Self::ranged(self.object_executor(Method::Put, args, true, true), args).body(data)
    }

    /// How `data` is put as an object: by one request, where it is not
    /// over [`MIN_PART_SIZE`]; else in parts of that size, which
    /// [`crate::payload::part_of`] cuts. A payload over
    /// [`MAX_MULTIPART_OBJECT_SIZE`] is refused.
    pub fn put_object(&self, args: &ObjectArgs, data: Bytes) -> (r: Result<
        PutObject<'_, P>,
        ValueError,
    >)
        ensures
            match r {
                Err(e) => bytes_of(data).len() > MAX_MULTIPART_OBJECT_SIZE && e
                    == ValueError::ObjectTooLarge,
                Ok(PutObject::Single(e)) => {
                    &&& bytes_of(data).len() <= MIN_PART_SIZE
                    &&& e.client() == self
                    &&& e@ == (RequestView {
                        body: Some(bytes_of(data)),
                        ..with_range(
                            object_request(Method::Put, self@.region, *args, true, true),
                            *args,
                        )
                    })
                },
                Ok(PutObject::Multipart { plan, data: payload }) => {
                    &&& MIN_PART_SIZE < bytes_of(data).len() <= MAX_MULTIPART_OBJECT_SIZE
                    &&& payload == data
                    &&& valid_plan(plan@)
                    &&& plan@ == (PlanView {
                        len: bytes_of(data).len(),
                        part_size: MIN_PART_SIZE as nat,
                    })
                },
            },
    {
        let len = crate::payload::bytes_len(&data);
        match upload_mode(len as u64) {
            Err(e) => Err(e),
            Ok(UploadMode::Single) => Ok(PutObject::Single(self.put_object_single(args, data))),
            Ok(UploadMode::Multipart(plan)) => Ok(PutObject::Multipart { plan, data }),
        }
    }

    /// The request that removes an object.
    pub fn remove_object(&self, args: &ObjectArgs) -> (e: BaseExecutor<'_, P>)
        ensures
            e@ == object_request(Method::Delete, self@.region, *args, true, false),
            e.client() == self,
    {
        self.object_executor(Method::Delete, args, true, false)
    }

    /// The request that asks what the service says of an object; see
    /// [`object_stat`] for its answer.
    pub fn stat_object(&self, args: &ObjectArgs) -> (e: BaseExecutor<'_, P>)
        ensures
            e@ == object_request(Method::Head, self@.region, *args, true, false),
            e.client() == self,
    {
        self.object_executor(Method::Head, args, true, false)
    }

    /// A request on one setting of an object: the one that the query key
    /// `setting` names.
    pub fn object_setting(&self, method: Method, args: &ObjectArgs, setting: &str) -> (e:
        BaseExecutor<'_, P>)
        ensures
            e@ == (RequestView {
                querys: object_request(method, self@.region, *args, false, false).querys.insert(
                    setting@,
                    ""@,
                ),
                ..object_request(method, self@.region, *args, false, false)
            }),
            e.client() == self,
    {
        self.object_executor(method, args, false, false).query(setting, "")
    }

    /// The request that asks whether a legal hold is on an object; see
    /// [`legal_hold_status`] and [`legal_hold_outcome`] for its answer.
    pub fn is_object_legal_hold_enabled(&self, args: &ObjectArgs) -> (e: BaseExecutor<'_, P>)
        ensures
            e@ == (RequestView {
                querys: object_request(Method::Get, self@.region, *args, false, false).querys.insert(
                    "legal-hold"@,
                    ""@,
                ),
                ..object_request(Method::Get, self@.region, *args, false, false)
            }),
            e.client() == self,
    {
        self.object_setting(Method::Get, args, "legal-hold")
    }

    fn set_legal_hold(&self, args: &ObjectArgs, enabled: bool) -> (e: BaseExecutor<'_, P>)
        ensures
            e@ == with_xml(
                (RequestView {
                    querys: object_request(
                        Method::Put,
                        self@.region,
                        *args,
                        false,
                        false,
                    ).querys.insert("legal-hold"@, ""@),
                    ..object_request(Method::Put, self@.region, *args, false, false)
                }),
                encode_utf8(legal_hold_xml(enabled)),
            ),
            e.client() == self,
    {
        let body = if enabled {
            "<LegalHold><Status>ON</Status></LegalHold>"
        } else {
            "<LegalHold><Status>OFF</Status></LegalHold>"
        };
        xml_body(self.object_setting(Method::Put, args, "legal-hold"), body.as_bytes_vec())
    }

    /// The request that puts a legal hold on an object.
    pub fn enable_object_legal_hold_enabled(&self, args: &ObjectArgs) -> (e: BaseExecutor<'_, P>)
        ensures
            e@ == with_xml(
                (RequestView {
                    querys: object_request(
                        Method::Put,
                        self@.region,
                        *args,
                        false,
                        false,
                    ).querys.insert("legal-hold"@, ""@),
                    ..object_request(Method::Put, self@.region, *args, false, false)
                }),
                encode_utf8(legal_hold_xml(true)),
            ),
            e.client() == self,
    {
        self.set_legal_hold(args, true)
    }

    /// The request that lifts the legal hold on an object.
    pub fn disable_object_legal_hold_enabled(&self, args: &ObjectArgs) -> (e: BaseExecutor<'_, P>)
        ensures
            e@ == with_xml(
                (RequestView {
                    querys: object_request(
                        Method::Put,
                        self@.region,
                        *args,
                        false,
                        false,
                    ).querys.insert("legal-hold"@, ""@),
                    ..object_request(Method::Put, self@.region, *args, false, false)
                }),
                encode_utf8(legal_hold_xml(false)),
            ),
            e.client() == self,
    {
        self.set_legal_hold(args, false)
    }

    /// The request that gets the tags of an object.
    pub fn get_object_tags(&self, args: &ObjectArgs) -> (e: BaseExecutor<'_, P>)
        ensures
            e@ == (RequestView {
                querys: object_request(Method::Get, self@.region, *args, false, false).querys.insert(
                    "tagging"@,
                    ""@,
                ),
                ..object_request(Method::Get, self@.region, *args, false, false)
            }),
            e.client() == self,
    {
        self.object_setting(Method::Get, args, "tagging")
    }

    /// The request that sets the tags of an object to those that
    /// `tags_xml` describes.
    pub fn set_object_tags(&self, args: &ObjectArgs, tags_xml: Vec<u8>) -> (e: BaseExecutor<'_, P>)
        ensures
            e@ == with_xml(
                (RequestView {
                    querys: object_request(
                        Method::Put,
                        self@.region,
                        *args,
                        false,
                        false,
                    ).querys.insert("tagging"@, ""@),
                    ..object_request(Method::Put, self@.region, *args, false, false)
                }),
                tags_xml@,
            ),
            e.client() == self,
    {
        xml_body(self.object_setting(Method::Put, args, "tagging"), tags_xml)
    }

    /// The request that removes the tags of an object.
    pub fn delete_object_tags(&self, args: &ObjectArgs) -> (e: BaseExecutor<'_, P>)
        ensures
            e@ == (RequestView {
                querys: object_request(
                    Method::Delete,
                    self@.region,
                    *args,
                    false,
                    false,
                ).querys.insert("tagging"@, ""@),
                ..object_request(Method::Delete, self@.region, *args, false, false)
            }),
            e.client() == self,
    {
        self.object_setting(Method::Delete, args, "tagging")
    }

    /// The request that gets the retention of an object.
    pub fn get_object_retention(&self, args: &ObjectArgs) -> (e: BaseExecutor<'_, P>)
        ensures
            e@ == (RequestView {
                querys: object_request(Method::Get, self@.region, *args, false, false).querys.insert(
                    "retention"@,
                    ""@,
                ),
                ..object_request(Method::Get, self@.region, *args, false, false)
            }),
            e.client() == self,
    {
        self.object_setting(Method::Get, args, "retention")
    }

    /// The request that sets the retention of an object to what
    /// `retention_xml` describes.
    pub fn set_object_retention(&self, args: &ObjectArgs, retention_xml: Vec<u8>) -> (e:
        BaseExecutor<'_, P>)
        ensures
            e@ == with_xml(
                (RequestView {
                    querys: object_request(
                        Method::Put,
                        self@.region,
                        *args,
                        false,
                        false,
                    ).querys.insert("retention"@, ""@),
                    ..object_request(Method::Put, self@.region, *args, false, false)
                }),
                retention_xml@,
            ),
            e.client() == self,
    {
        xml_body(self.object_setting(Method::Put, args, "retention"), retention_xml)
    }
}

} // verus!
