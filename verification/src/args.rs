//! What the operations on buckets and objects are told: the target and
//! the options of a request.
use vstd::prelude::*;
use vstd::string::*;
use crate::encode::{push_urlencoded, url_encoded};
use crate::executor::with_header;
use crate::headers::HeaderMap;
use crate::query::QueryMap;
use crate::text::{decimal, push_decimal};

verus! {

/// The view of an optional string.
pub open spec fn text_of(s: Option<String>) -> Option<Seq<char>> {
    match s {
        Some(t) => Some(t@),
        None => None,
    }
}

/// The headers `h` with those of `extra`, where there are any, set over
/// them.
pub open spec fn merged(h: Map<Seq<char>, Seq<char>>, extra: Option<HeaderMap>) -> Map<
    Seq<char>,
    Seq<char>,
> {
    match extra {
        Some(e) => h.union_prefer_right(e@),
        None => h,
    }
}

/// The headers `h` with `name` set to `value`, where there is a value and
/// name and value can stand in a header.
pub open spec fn with_opt_header(
    h: Map<Seq<char>, Seq<char>>,
    name: Seq<char>,
    value: Option<Seq<char>>,
) -> Map<Seq<char>, Seq<char>> {
    match value {
        Some(v) => with_header(h, name, v),
        None => h,
    }
}

/// The parameters `q` with `key` set to `value`, where there is a value.
pub open spec fn with_opt_query(
    q: Map<Seq<char>, Seq<char>>,
    key: Seq<char>,
    value: Option<Seq<char>>,
) -> Map<Seq<char>, Seq<char>> {
    match value {
        Some(v) => q.insert(key, v),
        None => q,
    }
}

/// A bucket and the options of a request on it.
pub struct BucketArgs {
    pub name: String,
    pub region: Option<String>,
    pub expected_bucket_owner: Option<String>,
    pub extra_headers: Option<HeaderMap>,
}

impl BucketArgs {
    /// The bucket `name` without options.
    pub fn new(name: &str) -> (a: Self)
        ensures
            a.name@ == name@,
            a.region is None,
            a.expected_bucket_owner is None,
            a.extra_headers is None,
    {
        BucketArgs {
            name: String::from_str(name),
            region: None,
            expected_bucket_owner: None,
            extra_headers: None,
        }
    }

    /// Sets the region of the bucket.
    pub fn region(self, region: Option<String>) -> (a: Self)
        ensures
            a == (BucketArgs { region, ..self }),
    {
        let mut this = self;
        this.region = region;
        this
    }

    /// Sets the account that is expected to own the bucket.
    pub fn expected_bucket_owner(self, owner: Option<String>) -> (a: Self)
        ensures
            a == (BucketArgs { expected_bucket_owner: owner, ..self }),
    {
        let mut this = self;
        this.expected_bucket_owner = owner;
        this
    }

    /// Sets headers that go along with the request.
    pub fn extra_headers(self, headers: Option<HeaderMap>) -> (a: Self)
        ensures
            a == (BucketArgs { extra_headers: headers, ..self }),
    {
        let mut this = self;
        this.extra_headers = headers;
        this
    }
}

/// An object and the options of a request on it.
pub struct ObjectArgs {
    pub bucket_name: String,
    pub object_name: String,
    pub region: Option<String>,
    pub expected_bucket_owner: Option<String>,
    pub version_id: Option<String>,
    pub content_type: Option<String>,
    /// Headers of server-side encryption with a key of the caller's.
    pub ssec_headers: Option<HeaderMap>,
    /// First byte of the range asked for.
    pub offset: u64,
    /// Length of the range asked for; 0 for all that follows `offset`.
    pub length: u64,
    pub extra_headers: Option<HeaderMap>,
}

/// The last byte of a range of `length` bytes from `offset`, and the
/// last byte that can be numbered where the range ends behind it.
pub open spec fn range_end(offset: nat, length: nat) -> nat {
    if offset + length - 1 > u64::MAX {
        u64::MAX as nat
    } else {
        (offset + length - 1) as nat
    }
}

/// The value of the `Range` header for a range of `length` bytes from
/// `offset`: none where both are 0, to the end where `length` is 0.
pub open spec fn range_text(offset: nat, length: nat) -> Option<Seq<char>> {
    if offset == 0 && length == 0 {
        None
    } else if length == 0 {
        Some("bytes="@ + decimal(offset) + seq!['-'])
    } else {
        Some("bytes="@ + decimal(offset) + seq!['-'] + decimal(range_end(offset, length)))
    }
}

impl ObjectArgs {
    /// The object `object_name` of the bucket `bucket_name`, without
    /// options.
    pub fn new(bucket_name: &str, object_name: &str) -> (a: Self)
        ensures
            a.bucket_name@ == bucket_name@,
            a.object_name@ == object_name@,
            a.region is None,
            a.expected_bucket_owner is None,
            a.version_id is None,
            a.content_type is None,
            a.ssec_headers is None,
            a.offset == 0,
            a.length == 0,
            a.extra_headers is None,
    {
        ObjectArgs {
            bucket_name: String::from_str(bucket_name),
            object_name: String::from_str(object_name),
            region: None,
            expected_bucket_owner: None,
            version_id: None,
            content_type: None,
            ssec_headers: None,
            offset: 0,
            length: 0,
            extra_headers: None,
        }
    }

    /// Sets the region of the bucket.
    pub fn region(self, region: Option<String>) -> (a: Self)
        ensures
            a == (ObjectArgs { region, ..self }),
    {
        let mut this = self;
        this.region = region;
        this
    }

    /// Sets the account that is expected to own the bucket.
    pub fn expected_bucket_owner(self, owner: Option<String>) -> (a: Self)
        ensures
            a == (ObjectArgs { expected_bucket_owner: owner, ..self }),
    {
        let mut this = self;
        this.expected_bucket_owner = owner;
        this
    }

    /// Sets the version of the object.
    pub fn version_id(self, version_id: Option<String>) -> (a: Self)
        ensures
            a == (ObjectArgs { version_id, ..self }),
    {
        let mut this = self;
        this.version_id = version_id;
        this
    }

    /// Sets the content type of the object.
    pub fn content_type(self, content_type: Option<String>) -> (a: Self)
        ensures
            a == (ObjectArgs { content_type, ..self }),
    {
        let mut this = self;
        this.content_type = content_type;
        this
    }

    /// Sets the headers of server-side encryption with a key of the
    /// caller's.
    pub fn ssec_headers(self, headers: Option<HeaderMap>) -> (a: Self)
        ensures
            a == (ObjectArgs { ssec_headers: headers, ..self }),
    {
        let mut this = self;
        this.ssec_headers = headers;
        this
    }

    /// Sets the first byte of the range asked for.
    pub fn offset(self, offset: u64) -> (a: Self)
        ensures
            a == (ObjectArgs { offset, ..self }),
    {
        let mut this = self;
        this.offset = offset;
        this
    }

    /// Sets the length of the range asked for.
    pub fn length(self, length: u64) -> (a: Self)
        ensures
            a == (ObjectArgs { length, ..self }),
    {
        let mut this = self;
        this.length = length;
        this
    }

    /// Sets headers that go along with the request.
    pub fn extra_headers(self, headers: Option<HeaderMap>) -> (a: Self)
        ensures
            a == (ObjectArgs { extra_headers: headers, ..self }),
    {
        let mut this = self;
        this.extra_headers = headers;
        this
    }

    /// The value of the `Range` header, where a range is asked for.
    pub fn range(&self) -> (r: Option<String>)
        ensures
            text_of(r) == range_text(self.offset as nat, self.length as nat),
    {
        if self.offset == 0 && self.length == 0 {
            return None;
        }
        let mut s = String::from_str("bytes=");
        push_decimal(&mut s, self.offset);
        s.push('-');
        if self.length > 0 {
            let end: u64 = if self.length - 1 > u64::MAX - self.offset {
                u64::MAX
            } else {
                self.offset + (self.length - 1)
            };
            push_decimal(&mut s, end);
        }
        Some(s)
    }
}

/// The object that a copy is made of.
pub struct CopySource {
    pub bucket_name: String,
    pub object_name: String,
    pub version_id: Option<String>,
    /// Whether the copy gets the metadata of the request in place of the
    /// source's.
    pub metadata_replace: bool,
}

/// The value of the header that names the source of a copy: `/`, the
/// bucket, `/` and the object, percent-encoded but for the slashes, and
/// the version, where one is named.
pub open spec fn copy_source_text(bucket: Seq<char>, object: Seq<char>, version: Option<Seq<char>>) -> Seq<
    char,
> {
    let path = url_encoded(seq!['/'] + bucket + seq!['/'] + object, true);
    match version {
        Some(v) => path + "?versionId="@ + url_encoded(v, false),
        None => path,
    }
}

/// The headers that name the source of a copy.
pub open spec fn copy_headers(src: CopySource) -> Map<Seq<char>, Seq<char>> {
    let h = with_header(
        Map::empty(),
        "x-amz-copy-source"@,
        copy_source_text(src.bucket_name@, src.object_name@, text_of(src.version_id)),
    );
    if src.metadata_replace {
        with_header(h, "x-amz-metadata-directive"@, "REPLACE"@)
    } else {
        h
    }
}

impl CopySource {
    /// The object `object_name` of the bucket `bucket_name` as the source
    /// of a copy.
    pub fn new(bucket_name: &str, object_name: &str) -> (c: Self)
        ensures
            c.bucket_name@ == bucket_name@,
            c.object_name@ == object_name@,
            c.version_id is None,
            !c.metadata_replace,
    {
        CopySource {
            bucket_name: String::from_str(bucket_name),
            object_name: String::from_str(object_name),
            version_id: None,
            metadata_replace: false,
        }
    }

    /// The object that `args` names as the source of a copy.
    pub fn from(args: ObjectArgs) -> (c: Self)
        ensures
            c == (CopySource {
                bucket_name: args.bucket_name,
                object_name: args.object_name,
                version_id: args.version_id,
                metadata_replace: false,
            }),
    {
        CopySource {
            bucket_name: args.bucket_name,
            object_name: args.object_name,
            version_id: args.version_id,
            metadata_replace: false,
        }
    }

    /// Sets whether the copy gets the metadata of the request in place of
    /// the source's.
    pub fn metadata_replace(self, replace: bool) -> (c: Self)
        ensures
            c == (CopySource { metadata_replace: replace, ..self }),
    {
        let mut this = self;
        this.metadata_replace = replace;
        this
    }

    /// The headers that name the source.
    pub fn extra_headers(&self) -> (h: HeaderMap)
        ensures
            h@ == copy_headers(*self),
    {
        let mut joined = String::new();
        joined.push('/');
        joined.append(self.bucket_name.as_str());
        joined.push('/');
        joined.append(self.object_name.as_str());
        assert(joined@ =~= seq!['/'] + self.bucket_name@ + seq!['/'] + self.object_name@);
        let mut value = String::new();
        push_urlencoded(&mut value, joined.as_str(), true);
        if let Some(v) = &self.version_id {
            value.append("?versionId=");
            push_urlencoded(&mut value, v.as_str(), false);
        }
        assert(value@ =~= copy_source_text(
            self.bucket_name@,
            self.object_name@,
            text_of(self.version_id),
        ));
        let mut h = HeaderMap::new();
        h.insert("x-amz-copy-source", value.as_str());
        if self.metadata_replace {
            h.insert("x-amz-metadata-directive", "REPLACE");
        }
        h
    }
}

/// The options of a listing of objects.
pub struct ListObjectsArgs {
    pub continuation_token: Option<String>,
    pub delimiter: Option<String>,
    pub use_encoding_type: bool,
    pub fetch_owner: bool,
    pub start_after: Option<String>,
    pub max_keys: u32,
    pub prefix: Option<String>,
    pub expected_bucket_owner: Option<String>,
    pub extra_headers: Option<HeaderMap>,
}

/// The query parameters of a listing of objects.
pub open spec fn list_objects_query(a: ListObjectsArgs) -> Map<Seq<char>, Seq<char>> {
    let q1 = Map::<Seq<char>, Seq<char>>::empty().insert("list-type"@, "2"@);
    let q2 = with_opt_query(q1, "continuation-token"@, text_of(a.continuation_token));
    let q3 = with_opt_query(q2, "delimiter"@, text_of(a.delimiter));
    let q4 = if a.use_encoding_type {
        q3.insert("encoding-type"@, "url"@)
    } else {
        q3
    };
    let q5 = if a.fetch_owner {
        q4.insert("fetch-owner"@, "true"@)
    } else {
        q4
    };
    let q6 = with_opt_query(q5, "prefix"@, text_of(a.prefix));
    let q7 = with_opt_query(q6, "start-after"@, text_of(a.start_after));
    q7.insert("max-keys"@, decimal(a.max_keys as nat))
}

fn insert_opt(q: &mut QueryMap, key: &str, value: &Option<String>)
    ensures
        final(q)@ == with_opt_query(old(q)@, key@, text_of(*value)),
{
    if let Some(v) = value {
        q.insert(String::from_str(key), v.clone());
    }
}

impl ListObjectsArgs {
    /// The options to start from: at most 1000 keys, nothing else set.
    pub fn new() -> (a: Self)
        ensures
            a.continuation_token is None,
            a.delimiter is None,
            !a.use_encoding_type,
            !a.fetch_owner,
            a.start_after is None,
            a.max_keys == 1000,
            a.prefix is None,
            a.expected_bucket_owner is None,
            a.extra_headers is None,
    {
        ListObjectsArgs {
            continuation_token: None,
            delimiter: None,
            use_encoding_type: false,
            fetch_owner: false,
            start_after: None,
            max_keys: 1000,
            prefix: None,
            expected_bucket_owner: None,
            extra_headers: None,
        }
    }

    /// Sets the token that the listing goes on from.
    pub fn continuation_token(self, token: &str) -> (a: Self)
        ensures
            text_of(a.continuation_token) == Some(token@),
            a == (ListObjectsArgs { continuation_token: a.continuation_token, ..self }),
    {
        let mut this = self;
        this.continuation_token = Some(String::from_str(token));
        this
    }

    /// Sets the delimiter that groups keys.
    pub fn delimiter(self, delimiter: &str) -> (a: Self)
        ensures
            text_of(a.delimiter) == Some(delimiter@),
            a == (ListObjectsArgs { delimiter: a.delimiter, ..self }),
    {
        let mut this = self;
        this.delimiter = Some(String::from_str(delimiter));
        this
    }

    /// Sets the largest number of keys in one answer.
    pub fn max_keys(self, max_keys: u32) -> (a: Self)
        ensures
            a == (ListObjectsArgs { max_keys, ..self }),
    {
        let mut this = self;
        this.max_keys = max_keys;
        this
    }

    /// Sets the prefix that the keys start with.
    pub fn prefix(self, prefix: &str) -> (a: Self)
        ensures
            text_of(a.prefix) == Some(prefix@),
            a == (ListObjectsArgs { prefix: a.prefix, ..self }),
    {
        let mut this = self;
        this.prefix = Some(String::from_str(prefix));
        this
    }

    /// The query parameters of the listing.
    pub fn args_query_map(&self) -> (q: QueryMap)
        ensures
            q@ == list_objects_query(*self),
    {
        let mut q = QueryMap::new();
        q.insert(String::from_str("list-type"), String::from_str("2"));
        insert_opt(&mut q, "continuation-token", &self.continuation_token);
        insert_opt(&mut q, "delimiter", &self.delimiter);
        if self.use_encoding_type {
            q.insert(String::from_str("encoding-type"), String::from_str("url"));
        }
        if self.fetch_owner {
            q.insert(String::from_str("fetch-owner"), String::from_str("true"));
        }
        insert_opt(&mut q, "prefix", &self.prefix);
        insert_opt(&mut q, "start-after", &self.start_after);
        let mut n = String::new();
        push_decimal(&mut n, self.max_keys as u64);
        q.insert(String::from_str("max-keys"), n);
        q
    }
}

/// The options of a listing of object versions.
pub struct ListObjectVersionsArgs {
    pub delimiter: Option<String>,
    pub use_encoding_type: bool,
    pub key_marker: Option<String>,
    pub max_keys: u32,
    pub prefix: Option<String>,
    pub version_id_marker: Option<String>,
    pub extra_headers: Option<HeaderMap>,
}

/// The query parameters of a listing of object versions.
pub open spec fn list_versions_query(a: ListObjectVersionsArgs) -> Map<Seq<char>, Seq<char>> {
    let q1 = Map::<Seq<char>, Seq<char>>::empty().insert("versions"@, Seq::empty());
    let q2 = with_opt_query(q1, "delimiter"@, text_of(a.delimiter));
    let q3 = if a.use_encoding_type {
        q2.insert("encoding-type"@, "url"@)
    } else {
        q2
    };
    let q4 = with_opt_query(q3, "key-marker"@, text_of(a.key_marker));
    let q5 = with_opt_query(q4, "prefix"@, text_of(a.prefix));
    let q6 = with_opt_query(q5, "version-id-marker"@, text_of(a.version_id_marker));
    q6.insert("max-keys"@, decimal(a.max_keys as nat))
}

impl ListObjectVersionsArgs {
    /// The options to start from: at most 1000 keys, nothing else set.
    pub fn new() -> (a: Self)
        ensures
            a.delimiter is None,
            !a.use_encoding_type,
            a.key_marker is None,
            a.max_keys == 1000,
            a.prefix is None,
            a.version_id_marker is None,
            a.extra_headers is None,
    {
        ListObjectVersionsArgs {
            delimiter: None,
            use_encoding_type: false,
            key_marker: None,
            max_keys: 1000,
            prefix: None,
            version_id_marker: None,
            extra_headers: None,
        }
    }

    /// The query parameters of the listing.
    pub fn args_query_map(&self) -> (q: QueryMap)
        ensures
            q@ == list_versions_query(*self),
    {
        let mut q = QueryMap::new();
        q.insert(String::from_str("versions"), String::new());
        insert_opt(&mut q, "delimiter", &self.delimiter);
        if self.use_encoding_type {
            q.insert(String::from_str("encoding-type"), String::from_str("url"));
        }
        insert_opt(&mut q, "key-marker", &self.key_marker);
        insert_opt(&mut q, "prefix", &self.prefix);
        insert_opt(&mut q, "version-id-marker", &self.version_id_marker);
        let mut n = String::new();
        push_decimal(&mut n, self.max_keys as u64);
        q.insert(String::from_str("max-keys"), n);
        q
    }
}

} // verus!
