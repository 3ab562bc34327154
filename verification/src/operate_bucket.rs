//! The requests of the operations on buckets, and what their answers
//! mean.
use vstd::prelude::*;
use vstd::string::*;
use vstd::utf8::*;
use crate::args::{
    list_objects_query, list_versions_query, merged, text_of, with_opt_header, BucketArgs,
    ListObjectVersionsArgs, ListObjectsArgs,
};
use crate::client::{Method, Minio};
use crate::digest::{md5_base64, md5sum_hash};
use crate::errors::Error;
use crate::executor::{fresh_request, with_header, BaseExecutor, RequestView};
use crate::headers::HeaderMap;
use crate::query::{parsed_query, with_all};
use crate::payload::bytes_from_vec;
use crate::text::str_eq;

verus! {

/// A request on a bucket: its name, the headers that go along, and the
/// expected owner, where one is named.
pub open spec fn bucket_request(method: Method, region: Seq<char>, bucket: BucketArgs) -> RequestView {
    RequestView {
        bucket_name: Some(bucket.name@),
        headers: with_opt_header(
            merged(Map::empty(), bucket.extra_headers),
            "x-amz-expected-bucket-owner"@,
            text_of(bucket.expected_bucket_owner),
        ),
        ..fresh_request(method, region)
    }
}

/// The request `r` with `xml` as its body and the digest of the body in
/// the header `Content-MD5`.
pub open spec fn with_xml(r: RequestView, xml: Seq<u8>) -> RequestView {
    RequestView {
        headers: with_header(r.headers, "Content-MD5"@, md5_base64(xml)),
        body: Some(xml),
        ..r
    }
}

/// The body of the request that makes a bucket in `region`.
pub open spec fn create_bucket_xml(region: Seq<char>) -> Seq<char> {
    "<CreateBucketConfiguration><LocationConstraint>"@ + region
        + "</LocationConstraint></CreateBucketConfiguration>"@
}

/// The configuration of a bucket whose objects can be locked and have no
/// retention by default.
pub const EMPTY_OBJECT_LOCK_CONFIG: &'static str =
    "<ObjectLockConfiguration><ObjectLockEnabled>Enabled</ObjectLockEnabled></ObjectLockConfiguration>";

/// Sets `xml` as the body of a request, and the digest of the body in
/// the header `Content-MD5`.
pub fn xml_body<'a, P>(e: BaseExecutor<'a, P>, xml: Vec<u8>) -> (r: BaseExecutor<'a, P>)
    ensures
        r@ == with_xml(e@, xml@),
        r.client() == e.client(),
{
    let md5 = md5sum_hash(xml.as_slice());
    e.header("Content-MD5", md5.as_str()).body(bytes_from_vec(xml))
}

/// What an answer means where one code of the service stands for "there
/// is none": the value, nothing for a failure with that code, and every
/// other failure as it is.
pub open spec fn absent_on<T>(result: Result<T, Error>, code: Seq<char>) -> Result<Option<T>, Error> {
    match result {
        Ok(v) => Ok(Some(v)),
        Err(Error::S3Error(s)) => if s.code@ == code {
            Ok(None)
        } else {
            Err(Error::S3Error(s))
        },
        Err(e) => Err(e),
    }
}

/// Turns the failure with the code `code` into "there is none".
pub fn none_on_code<T>(result: Result<T, Error>, code: &str) -> (r: Result<Option<T>, Error>)
    ensures
        r == absent_on(result, code@),
{
    match result {
        Ok(v) => Ok(Some(v)),
        Err(Error::S3Error(s)) => {
            if str_eq(s.code.as_str(), code) {
                Ok(None)
            } else {
                Err(Error::S3Error(s))
            }
        },
        Err(e) => Err(e),
    }
}

impl<P> Minio<P> {
    /// A request on a bucket.
    pub fn bucket_executor(&self, bucket: &BucketArgs, method: Method) -> (e: BaseExecutor<'_, P>)
        ensures
            e@ == bucket_request(method, self@.region, *bucket),
            e.client() == self,
    {
        let e = self.executor(method).bucket_name(bucket.name.as_str()).headers_merge2(
            bucket.extra_headers.as_ref(),
        );
        match &bucket.expected_bucket_owner {
            Some(owner) => e.header("x-amz-expected-bucket-owner", owner.as_str()),
            None => e,
        }
    }

    /// The request that asks whether a bucket exists: a status of success
    /// says that it does and can be reached.
    pub fn bucket_exists(&self, bucket: &BucketArgs) -> (e: BaseExecutor<'_, P>)
        ensures
            e@ == bucket_request(Method::Head, self@.region, *bucket),
            e.client() == self,
    {
        self.bucket_executor(bucket, Method::Head)
    }

    /// The request that lists all buckets.
    pub fn list_buckets(&self) -> (e: BaseExecutor<'_, P>)
        ensures
            e@ == fresh_request(Method::Get, self@.region),
            e.client() == self,
    {
        self.executor(Method::Get)
    }

    /// The request that lists the versions of the objects of a bucket.
    pub fn list_object_versions(&self, bucket: &BucketArgs, args: &ListObjectVersionsArgs) -> (e:
        BaseExecutor<'_, P>)
        ensures
            e@ == (RequestView {
                querys: list_versions_query(*args),
                headers: merged(
                    bucket_request(Method::Get, self@.region, *bucket).headers,
                    args.extra_headers,
                ),
                ..bucket_request(Method::Get, self@.region, *bucket)
            }),
            e.client() == self,
    {
        self.bucket_executor(bucket, Method::Get).querys(args.args_query_map()).headers_merge2(
            args.extra_headers.as_ref(),
        )
    }

    /// The request that lists the objects of a bucket.
    pub fn list_objects(&self, bucket: &BucketArgs, args: &ListObjectsArgs) -> (e: BaseExecutor<
        '_,
        P,
    >)
        ensures
            e@ == (RequestView {
                querys: list_objects_query(*args),
                headers: merged(
                    bucket_request(Method::Get, self@.region, *bucket).headers,
                    args.extra_headers,
                ),
                ..bucket_request(Method::Get, self@.region, *bucket)
            }),
            e.client() == self,
    {
        self.bucket_executor(bucket, Method::Get).querys(args.args_query_map()).headers_merge2(
            args.extra_headers.as_ref(),
        )
    }

    /// The request that makes a bucket, in the region that `bucket` names
    /// or else in the client's. With `object_lock`, the objects of the
    /// bucket can be locked.
    pub fn make_bucket(&self, bucket: &BucketArgs, object_lock: bool) -> (e: BaseExecutor<'_, P>)
        ensures
            e@ == (RequestView {
                bucket_name: Some(bucket.name@),
                headers: if object_lock {
                    with_header(
                        merged(Map::empty(), bucket.extra_headers),
                        "x-amz-bucket-object-lock-enabled"@,
                        "true"@,
                    )
                } else {
                    merged(Map::empty(), bucket.extra_headers)
                },
                body: Some(
                    encode_utf8(
                        create_bucket_xml(
                            match bucket.region {
                                Some(r) => r@,
                                None => self@.region,
                            },
                        ),
                    ),
                ),
                ..fresh_request(Method::Put, self@.region)
            }),
            e.client() == self,
    {
        let mut body = String::from_str("<CreateBucketConfiguration><LocationConstraint>");
        match &bucket.region {
            Some(r) => body.append(r.as_str()),
            None => body.append(self.region()),
        }
        body.append("</LocationConstraint></CreateBucketConfiguration>");
        let e = self.executor(Method::Put).bucket_name(bucket.name.as_str()).headers_merge2(
            bucket.extra_headers.as_ref(),
        );
        let e = if object_lock {
            e.header("x-amz-bucket-object-lock-enabled", "true")
        } else {
            e
        };
        e.body(bytes_from_vec(body.as_str().as_bytes_vec()))
    }

    /// The request that removes an empty bucket.
    pub fn remove_bucket(&self, bucket: &BucketArgs) -> (e: BaseExecutor<'_, P>)
        ensures
            e@ == bucket_request(Method::Delete, self@.region, *bucket),
            e.client() == self,
    {
        self.bucket_executor(bucket, Method::Delete)
    }

    /// The request that gets the tags of a bucket.
    pub fn get_bucket_tags(&self, bucket: &BucketArgs) -> (e: BaseExecutor<'_, P>)
        ensures
            e@ == (RequestView {
                querys: Map::empty().insert("tagging"@, ""@),
                ..bucket_request(Method::Get, self@.region, *bucket)
            }),
            e.client() == self,
    {
        self.bucket_executor(bucket, Method::Get).query("tagging", "")
    }

    /// The request that sets the tags of a bucket to those that `tags_xml`
    /// describes.
    pub fn set_bucket_tags(&self, bucket: &BucketArgs, tags_xml: Vec<u8>) -> (e: BaseExecutor<
        '_,
        P,
    >)
        ensures
            e@ == with_xml(
                (RequestView {
                    querys: Map::empty().insert("tagging"@, ""@),
                    ..bucket_request(Method::Put, self@.region, *bucket)
                }),
                tags_xml@,
            ),
            e.client() == self,
    {
        xml_body(self.bucket_executor(bucket, Method::Put).query("tagging", ""), tags_xml)
    }

    /// The request that removes the tags of a bucket.
    pub fn delete_bucket_tags(&self, bucket: &BucketArgs) -> (e: BaseExecutor<'_, P>)
        ensures
            e@ == (RequestView {
                querys: Map::empty().insert("tagging"@, ""@),
                ..bucket_request(Method::Delete, self@.region, *bucket)
            }),
            e.client() == self,
    {
        self.bucket_executor(bucket, Method::Delete).query("tagging", "")
    }

    /// The request that gets one setting of a bucket: the one that the
    /// query string `setting` names.
    pub fn get_bucket_setting(&self, bucket: &BucketArgs, setting: &str) -> (e: BaseExecutor<'_, P>)
        ensures
            e@ == (RequestView {
                querys: Map::empty().insert(setting@, ""@),
                ..bucket_request(Method::Get, self@.region, *bucket)
            }),
            e.client() == self,
    {
        self.bucket_executor(bucket, Method::Get).query(setting, "")
    }

    /// The request that gets the versioning of a bucket.
    pub fn get_bucket_versioning(&self, bucket: &BucketArgs) -> (e: BaseExecutor<'_, P>)
        ensures
            e@ == (RequestView {
                querys: Map::empty().insert("versioning"@, ""@),
                ..bucket_request(Method::Get, self@.region, *bucket)
            }),
            e.client() == self,
    {
        self.get_bucket_setting(bucket, "versioning")
    }

    /// The request that sets the versioning of a bucket to what
    /// `versioning_xml` describes.
    pub fn set_bucket_versioning(&self, bucket: &BucketArgs, versioning_xml: Vec<u8>) -> (e:
        BaseExecutor<'_, P>)
        ensures
            e@ == with_xml(
                (RequestView {
                    querys: with_all(Map::empty(), parsed_query("versioning"@)),
                    ..bucket_request(Method::Put, self@.region, *bucket)
                }),
                versioning_xml@,
            ),
            e.client() == self,
    {
        xml_body(
            self.bucket_executor(bucket, Method::Put).query_string("versioning"),
            versioning_xml,
        )
    }

    /// The request that gets the object-lock configuration of a bucket.
    pub fn get_object_lock_config(&self, bucket: &BucketArgs) -> (e: BaseExecutor<'_, P>)
        ensures
            e@ == (RequestView {
                querys: Map::empty().insert("object-lock"@, ""@),
                ..bucket_request(Method::Get, self@.region, *bucket)
            }),
            e.client() == self,
    {
        self.get_bucket_setting(bucket, "object-lock")
    }

    /// The request that sets the object-lock configuration of a bucket to
    /// what `config_xml` describes.
    pub fn set_object_lock_config(&self, bucket: &BucketArgs, config_xml: Vec<u8>) -> (e:
        BaseExecutor<'_, P>)
        ensures
            e@ == with_xml(
                (RequestView {
                    querys: with_all(Map::empty(), parsed_query("object-lock"@)),
                    ..bucket_request(Method::Put, self@.region, *bucket)
                }),
                config_xml@,
            ),
            e.client() == self,
    {
        xml_body(
            self.bucket_executor(bucket, Method::Put).query_string("object-lock"),
            config_xml,
        )
    }

    /// The request that takes the default retention off a bucket: it sets
    /// [`EMPTY_OBJECT_LOCK_CONFIG`].
    pub fn delete_object_lock_config(&self, bucket: &BucketArgs) -> (e: BaseExecutor<'_, P>)
        ensures
            e@ == with_xml(
                (RequestView {
                    querys: with_all(Map::empty(), parsed_query("object-lock"@)),
                    ..bucket_request(Method::Put, self@.region, *bucket)
                }),
                encode_utf8(EMPTY_OBJECT_LOCK_CONFIG@),
            ),
            e.client() == self,
    {
        self.set_object_lock_config(bucket, EMPTY_OBJECT_LOCK_CONFIG.as_bytes_vec())
    }
}

/// Where the service says a bucket was made: the value of the header
/// `Location` of its answer, if it has one.
pub fn bucket_location(response_headers: &HeaderMap) -> (r: Option<&str>)
    ensures
        match r {
            Some(l) => response_headers@.contains_key(crate::headers::lower("Location"@))
                && response_headers@[crate::headers::lower("Location"@)] == l@,
            None => !response_headers@.contains_key(crate::headers::lower("Location"@)),
        },
{
    response_headers.get("Location")
}

/// What the answer to [`Minio::get_bucket_tags`] means: a bucket without
/// tags answers with the failure `NoSuchTagSet`, which is no failure but
/// "no tags".
pub fn bucket_tags_outcome<T>(result: Result<T, Error>) -> (r: Result<Option<T>, Error>)
    ensures
        r == absent_on(result, "NoSuchTagSet"@),
{
    none_on_code(result, "NoSuchTagSet")
}

} // verus!
