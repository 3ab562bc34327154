use bytes::Bytes;
use minio_rsc::args::{BucketArgs, CopySource, ListObjectVersionsArgs, ListObjectsArgs, ObjectArgs};
use minio_rsc::client::{Builder, Credentials, Method, Minio, HOST_PATTERN};
use minio_rsc::digest::EMPTY_CONTENT_SHA256;
use minio_rsc::errors::{Error, S3Error, ValueError};
use minio_rsc::executor::{service_failure, status_is_success, BaseExecutor};
use minio_rsc::headers::HeaderMap;
use minio_rsc::multipart::MultipartSession;
use minio_rsc::operate_bucket::{bucket_location, bucket_tags_outcome, none_on_code};
use minio_rsc::operate_object::{
    legal_hold_outcome, legal_hold_status, object_stat, parse_size, strip_quotes, upload_mode,
    PutObject, UploadMode,
};
use minio_rsc::operation_ext::{next_page, PageEnd};
use minio_rsc::query::QueryMap;
use minio_rsc::time::Timestamp;
use minio_rsc::xml::{check_response, parse_s3_error, tag_text, upload_id_of};

fn client() -> Minio<u8> {
    Minio::<u8>::builder().host("localhost:9022").provider(7).secure(false).build().unwrap()
}

fn keys() -> Credentials {
    Credentials::new("minio-access-key-test", "minio-secret-key-test", None)
}

fn moment() -> Timestamp {
    Timestamp::new(2023, 4, 5, 6, 7, 8).unwrap()
}

fn header(e: &minio_rsc::executor::SignedRequest, name: &str) -> Option<String> {
    e.headers.get(name).map(|v| v.to_string())
}

#[test]
fn builder_starts_from_its_defaults() {
    let m = Builder::<u8>::new().host("play.min.io").provider(1).build().unwrap();
    assert_eq!(m.region(), "us-east-1");
    assert_eq!(m.agent(), "MinIO (Linux; x86_64) minio-rs");
    assert_eq!(m.host(), "https://play.min.io");
    assert_eq!(m.chost(), "127.0.0.1");
    assert!(m.secure());
    assert_eq!(*m.provider(), 1);
}

#[test]
fn builder_reports_the_first_fault() {
    assert_eq!(Builder::<u8>::new().build().err(), Some(ValueError::MissHost));
    assert_eq!(
        Builder::<u8>::new().host("not a host").provider(1).build().err(),
        Some(ValueError::InvalidHostname)
    );
    assert_eq!(
        Builder::<u8>::new().host("ftp://host").build().err(),
        Some(ValueError::InvalidHostname)
    );
    assert_eq!(
        Builder::<u8>::new().host("host:port").build().err(),
        Some(ValueError::InvalidHostname)
    );
    assert_eq!(Builder::<u8>::new().host("").build().err(), Some(ValueError::InvalidHostname));
    assert_eq!(
        Builder::<u8>::new().host("localhost:9000").build().err(),
        Some(ValueError::MissProvider)
    );
    assert_eq!(
        Builder::<u8>::new().host("localhost:9000").provider(1).agent("bad\nagent").build().err(),
        Some(ValueError::InvalidAgent)
    );
}

#[test]
fn builder_takes_the_forms_of_host_that_the_pattern_allows() {
    for host in ["localhost", "localhost:9000", "http://a.b-c_d.e", "https://play.min.io:443", "10.0.0.1:80", "::1"] {
        let r = Builder::<u8>::new().host(host).provider(1).build();
        assert_eq!(r.is_ok(), host != "::1", "{}", host);
    }
    assert!(HOST_PATTERN.starts_with('^') && HOST_PATTERN.ends_with('$'));
}

#[test]
fn build_checked_goes_by_what_it_is_told_of_the_host() {
    assert_eq!(
        Builder::<u8>::new().host("localhost").provider(1).build_checked(false).err(),
        Some(ValueError::InvalidHostname)
    );
    assert_eq!(Builder::<u8>::new().build_checked(true).err(), Some(ValueError::MissHost));
    let m = Builder::<u8>::new().host("a b").provider(1).build_checked(true).unwrap();
    assert_eq!(m.host(), "https://a b");
    assert_eq!(
        Builder::<u8>::new().host("a\tb\n").provider(1).build_checked(true).err(),
        Some(ValueError::InvalidHost)
    );
}

#[test]
fn scheme_before_the_host_sets_the_transport_flag() {
    let a = Builder::<u8>::new().host("http://localhost:9000").provider(1).build().unwrap();
    assert!(!a.secure());
    assert_eq!(a.host(), "https://localhost:9000");
    let b = Builder::<u8>::new().host("https://localhost:9000").provider(1).secure(false).build().unwrap();
    assert!(b.secure());
    assert_eq!(b.host(), "http://localhost:9000");
    let c = Builder::<u8>::new().host("localhost:9000").provider(1).secure(false).build().unwrap();
    assert!(!c.secure());
    assert_eq!(c.host(), "http://localhost:9000");
}

#[test]
fn chost_sets_the_host_and_region_and_agent_are_kept() {
    let m = Builder::<u8>::new()
        .chost("example.org")
        .region("eu-west-1")
        .agent("agent/1.0")
        .provider(1)
        .build()
        .unwrap();
    assert_eq!(m.host(), "https://example.org");
    assert_eq!(m.chost(), "127.0.0.1");
    assert_eq!(m.region(), "eu-west-1");
    assert_eq!(m.agent(), "agent/1.0");
}

#[test]
fn uri_of_bucket_and_key() {
    let m = client();
    assert_eq!(m.build_uri(None, None), "http://localhost:9022/");
    assert_eq!(m.build_uri(Some("bucket"), None), "http://localhost:9022/bucket/");
    assert_eq!(
        m.build_uri(Some("bucket"), Some("dir/my file+1.txt")),
        "http://localhost:9022/bucket/dir/my%20file%2B1.txt"
    );
    assert_eq!(m.build_uri(None, Some("key")), "http://localhost:9022/");
}

#[test]
fn methods_have_their_names() {
    assert_eq!(Method::Get.as_str(), "GET");
    assert_eq!(Method::Put.as_str(), "PUT");
    assert_eq!(Method::Post.as_str(), "POST");
    assert_eq!(Method::Delete.as_str(), "DELETE");
    assert_eq!(Method::Head.as_str(), "HEAD");
    assert_eq!(Method::Options.as_str(), "OPTIONS");
    assert_eq!(Method::Patch.as_str(), "PATCH");
}

#[test]
fn send_signs_and_sets_the_fixed_headers() {
    let m = client();
    let r = m
        .executor(Method::Get)
        .bucket_name("bucket")
        .object_name("test.txt")
        .query("versionId", "cdabf31a-9752-4265-b137-6b3961fbaf9b")
        .send(&keys(), &moment())
        .unwrap();
    assert_eq!(r.method, Method::Get);
    assert_eq!(
        r.url,
        "http://localhost:9022/bucket/test.txt?versionId=cdabf31a-9752-4265-b137-6b3961fbaf9b"
    );
    assert!(r.body.is_empty());
    assert_eq!(header(&r, "User-Agent").unwrap(), "MinIO (Linux; x86_64) minio-rs");
    assert_eq!(header(&r, "Host").unwrap(), "127.0.0.1");
    assert_eq!(header(&r, "X-Amz-Content-Sha256").unwrap(), EMPTY_CONTENT_SHA256);
    assert_eq!(header(&r, "X-Amz-Date").unwrap(), "20230405T060708Z");
    assert_eq!(header(&r, "Content-Length"), None);
    assert_eq!(header(&r, "X-Amz-Security-Token"), None);
    let auth = header(&r, "Authorization").unwrap();
    assert!(auth.starts_with(
        "AWS4-HMAC-SHA256 Credential=minio-access-key-test/20230405/us-east-1/s3/aws4_request, SignedHeaders=host;user-agent;x-amz-content-sha256;x-amz-date, Signature="
    ));
    assert_eq!(auth.len() - auth.rfind('=').unwrap() - 1, 64);
    assert_eq!(r.headers.len(), 5);
}

#[test]
fn send_agrees_with_the_signer() {
    let m = client();
    let r = m.executor(Method::Put).bucket_name("bucket").object_name("a b").body(Bytes::from_static(b"hello")).send(&keys(), &moment()).unwrap();
    let mut h = HeaderMap::new();
    h.insert("user-agent", "MinIO (Linux; x86_64) minio-rs");
    h.insert("content-length", "5");
    h.insert("host", "127.0.0.1");
    h.insert("x-amz-content-sha256", "2cf24dba5fb0a30e26e83b2ac5b9e29e1b161e5c1fa7425e73043362938b9824");
    h.insert("x-amz-date", "20230405T060708Z");
    let auth = minio_rsc::signer::sign_v4_authorization(
        "PUT",
        "/bucket/a%20b",
        "",
        "us-east-1",
        "s3",
        &h,
        "minio-access-key-test",
        "minio-secret-key-test",
        "2cf24dba5fb0a30e26e83b2ac5b9e29e1b161e5c1fa7425e73043362938b9824",
        &moment(),
    );
    assert_eq!(header(&r, "authorization").unwrap(), auth);
    assert_eq!(header(&r, "content-length").unwrap(), "5");
    assert_eq!(r.url, "http://localhost:9022/bucket/a%20b?");
    assert_eq!(r.body, b"hello".to_vec());
}

#[test]
fn send_attaches_the_session_token_before_signing() {
    let m = client();
    let c = Credentials::new("ak", "sk", Some("token-1"));
    let r = m.executor(Method::Get).send(&c, &moment()).unwrap();
    assert_eq!(header(&r, "X-Amz-Security-Token").unwrap(), "token-1");
    assert!(header(&r, "Authorization")
        .unwrap()
        .contains("SignedHeaders=host;user-agent;x-amz-content-sha256;x-amz-date;x-amz-security-token,"));
    assert_eq!(r.url, "http://localhost:9022/?");
    assert_eq!(c.access_key(), "ak");
    assert_eq!(c.secret_key(), "sk");
    assert_eq!(c.session_token(), Some("token-1"));
}

#[test]
fn send_refuses_before_anything_is_signed() {
    let m = client();
    let t = moment();
    assert_eq!(
        m.executor(Method::Get).bucket_name("AB").send(&keys(), &t).err(),
        Some(ValueError::BucketNameLength)
    );
    assert_eq!(
        m.executor(Method::Get).bucket_name("192.168.0.1").send(&keys(), &t).err(),
        Some(ValueError::BucketNameIpAddress)
    );
    assert_eq!(
        m.executor(Method::Get).bucket_name("bucket").object_name("").send(&keys(), &t).err(),
        Some(ValueError::EmptyObjectName)
    );
    assert_eq!(
        m.executor(Method::Get).object_name("key").send(&keys(), &t).err(),
        Some(ValueError::MissBucketName)
    );
    assert_eq!(
        m.executor(Method::Get).send(&Credentials::new("", "sk", None), &t).err(),
        Some(ValueError::InvalidCredentials)
    );
    assert_eq!(
        m.executor(Method::Get).send(&Credentials::new("ak", "sk", Some("a\nb")), &t).err(),
        Some(ValueError::InvalidCredentials)
    );
    assert_eq!(
        m.executor(Method::Get).send(&Credentials::new("a\nk", "sk", None), &t).err(),
        Some(ValueError::InvalidAuthorization)
    );
    assert_eq!(
        m.executor(Method::Get).region("re\ngion").send(&keys(), &t).err(),
        Some(ValueError::InvalidAuthorization)
    );
}

#[test]
fn executor_setters_replace_and_merge() {
    let m = client();
    let mut h1 = HeaderMap::new();
    h1.insert("a", "1");
    h1.insert("b", "1");
    let mut h2 = HeaderMap::new();
    h2.insert("B", "2");
    let mut q1 = QueryMap::new();
    q1.insert("x".to_string(), "1".to_string());
    let mut q2 = QueryMap::new();
    q2.insert("y".to_string(), "2".to_string());
    let e: BaseExecutor<u8> = BaseExecutor::new(Method::Get, &m)
        .method(Method::Post)
        .region("eu-central-1")
        .header("dropped", "x")
        .headers(h1)
        .headers_merge(&h2)
        .headers_merge2(None)
        .header("bad name", "x")
        .header("c", "bad\nvalue")
        .header("C", "3")
        .query("dropped", "x")
        .querys(q1)
        .querys_merge(q2)
        .query_string("z=3&x=9")
        .apply(|e| e.query("w", "0"));
    let r = e.send(&keys(), &moment()).unwrap();
    assert_eq!(r.method, Method::Post);
    assert_eq!(r.url, "http://localhost:9022/?w=0&x=9&y=2&z=3");
    assert_eq!(header(&r, "a").unwrap(), "1");
    assert_eq!(header(&r, "b").unwrap(), "2");
    assert_eq!(header(&r, "c").unwrap(), "3");
    assert_eq!(header(&r, "dropped"), None);
    assert!(header(&r, "authorization").unwrap().contains("/eu-central-1/s3/aws4_request"));
}

#[test]
fn statuses_of_success() {
    assert!(status_is_success(200));
    assert!(status_is_success(204));
    assert!(status_is_success(299));
    assert!(!status_is_success(199));
    assert!(!status_is_success(300));
    assert!(!status_is_success(404));
}

fn no_such(code: &str) -> S3Error {
    S3Error {
        code: code.to_string(),
        message: "m".to_string(),
        resource: "r".to_string(),
        request_id: "i".to_string(),
    }
}

#[test]
fn service_failures_keep_their_kind() {
    assert_eq!(service_failure(Ok(no_such("NoSuchKey"))), Error::S3Error(no_such("NoSuchKey")));
    assert_eq!(service_failure(Err("Code".to_string())), Error::XmlError("Code".to_string()));
}

#[test]
fn xml_elements_are_read_by_tag() {
    let xml = "<?xml version=\"1.0\"?><Error><Code>NoSuchKey</Code><Message>The key &amp; more</Message><Resource>/b/k</Resource><RequestId>4442587FB7D0A2F9</RequestId></Error>";
    assert_eq!(tag_text(xml, "Code"), Some("NoSuchKey".to_string()));
    assert_eq!(tag_text(xml, "Message"), Some("The key &amp; more".to_string()));
    assert_eq!(tag_text(xml, "HostId"), None);
    assert_eq!(tag_text("<a>1</a><a>2</a>", "a"), Some("1".to_string()));
    assert_eq!(tag_text("<a></a>", "a"), Some("".to_string()));
    assert_eq!(tag_text("<a>open", "a"), None);
    assert_eq!(tag_text("</a><a>x</a>", "a"), Some("x".to_string()));
    assert_eq!(tag_text("", "a"), None);
    assert_eq!(tag_text("<>x</>", ""), Some("x".to_string()));
    let e = parse_s3_error(xml).unwrap();
    assert_eq!(e.code, "NoSuchKey");
    assert_eq!(e.message, "The key &amp; more");
    assert_eq!(e.resource, "/b/k");
    assert_eq!(e.request_id, "4442587FB7D0A2F9");
    let bare = parse_s3_error("<Error><Code>AccessDenied</Code></Error>").unwrap();
    assert_eq!(bare.code, "AccessDenied");
    assert_eq!(bare.message, "");
    assert_eq!(parse_s3_error("<html>502</html>"), Err("Code".to_string()));
}

#[test]
fn responses_are_checked_by_status_first() {
    assert_eq!(check_response(200, "<Error><Code>X</Code></Error>"), Ok(()));
    assert_eq!(
        check_response(404, "<Error><Code>NoSuchBucket</Code></Error>"),
        Err(Error::S3Error(S3Error {
            code: "NoSuchBucket".to_string(),
            message: String::new(),
            resource: String::new(),
            request_id: String::new(),
        }))
    );
    assert_eq!(check_response(500, "oops"), Err(Error::XmlError("Code".to_string())));
    assert_eq!(
        upload_id_of("<InitiateMultipartUploadResult><Bucket>b</Bucket><Key>k</Key><UploadId>VXBsb2Fk</UploadId></InitiateMultipartUploadResult>"),
        Ok("VXBsb2Fk".to_string())
    );
    assert_eq!(upload_id_of("<x/>"), Err(Error::XmlError("UploadId".to_string())));
}

#[test]
fn bucket_requests() {
    let m = client();
    let t = moment();
    let mut extra = HeaderMap::new();
    extra.insert("x-extra", "1");
    let b = BucketArgs::new("bucket")
        .expected_bucket_owner(Some("owner-1".to_string()))
        .extra_headers(Some(extra));
    let r = m.bucket_exists(&b).send(&keys(), &t).unwrap();
    assert_eq!(r.method, Method::Head);
    assert_eq!(r.url, "http://localhost:9022/bucket/?");
    assert_eq!(header(&r, "x-amz-expected-bucket-owner").unwrap(), "owner-1");
    assert_eq!(header(&r, "x-extra").unwrap(), "1");

    let plain = BucketArgs::new("bucket");
    let r = m.list_buckets().send(&keys(), &t).unwrap();
    assert_eq!((r.method, r.url.as_str()), (Method::Get, "http://localhost:9022/?"));
    let r = m.remove_bucket(&plain).send(&keys(), &t).unwrap();
    assert_eq!((r.method, r.url.as_str()), (Method::Delete, "http://localhost:9022/bucket/?"));
    let r = m.get_bucket_tags(&plain).send(&keys(), &t).unwrap();
    assert_eq!((r.method, r.url.as_str()), (Method::Get, "http://localhost:9022/bucket/?tagging="));
    let r = m.delete_bucket_tags(&plain).send(&keys(), &t).unwrap();
    assert_eq!((r.method, r.url.as_str()), (Method::Delete, "http://localhost:9022/bucket/?tagging="));
    let r = m.get_bucket_versioning(&plain).send(&keys(), &t).unwrap();
    assert_eq!(r.url, "http://localhost:9022/bucket/?versioning=");
    let r = m.get_object_lock_config(&plain).send(&keys(), &t).unwrap();
    assert_eq!(r.url, "http://localhost:9022/bucket/?object-lock=");
    let r = m.set_bucket_versioning(&plain, b"<V/>".to_vec()).send(&keys(), &t).unwrap();
    assert_eq!((r.method, r.url.as_str()), (Method::Put, "http://localhost:9022/bucket/?versioning="));
    assert_eq!(r.body, b"<V/>".to_vec());
    let r = m.set_object_lock_config(&plain, b"<C/>".to_vec()).send(&keys(), &t).unwrap();
    assert_eq!(r.url, "http://localhost:9022/bucket/?object-lock=");
    let r = m.delete_object_lock_config(&plain).send(&keys(), &t).unwrap();
    assert_eq!(
        r.body,
        b"<ObjectLockConfiguration><ObjectLockEnabled>Enabled</ObjectLockEnabled></ObjectLockConfiguration>".to_vec()
    );
}

#[test]
fn tags_request_carries_the_digest_of_its_body() {
    let m = client();
    let r = m
        .set_bucket_tags(&BucketArgs::new("bucket"), b"hello world".to_vec())
        .send(&keys(), &moment())
        .unwrap();
    assert_eq!(r.method, Method::Put);
    assert_eq!(r.url, "http://localhost:9022/bucket/?tagging=");
    assert_eq!(header(&r, "Content-MD5").unwrap(), "XrY7u+Ae7tCTyyK7j1rNww==");
    assert_eq!(header(&r, "Content-Length").unwrap(), "11");
    assert_eq!(
        header(&r, "X-Amz-Content-Sha256").unwrap(),
        "b94d27b9934d3e08a52e52d7da7dabfac484efe37a5380ee9088f7ace2efcde9"
    );
}

#[test]
fn make_bucket_names_the_region() {
    let m = client();
    let t = moment();
    let r = m.make_bucket(&BucketArgs::new("bucket"), false).send(&keys(), &t).unwrap();
    assert_eq!(r.method, Method::Put);
    assert_eq!(
        String::from_utf8(r.body.to_vec()).unwrap(),
        "<CreateBucketConfiguration><LocationConstraint>us-east-1</LocationConstraint></CreateBucketConfiguration>"
    );
    assert_eq!(header(&r, "x-amz-bucket-object-lock-enabled"), None);
    let b = BucketArgs::new("bucket").region(Some("eu-west-2".to_string()));
    let r = m.make_bucket(&b, true).send(&keys(), &t).unwrap();
    assert_eq!(
        String::from_utf8(r.body.to_vec()).unwrap(),
        "<CreateBucketConfiguration><LocationConstraint>eu-west-2</LocationConstraint></CreateBucketConfiguration>"
    );
    assert_eq!(header(&r, "x-amz-bucket-object-lock-enabled").unwrap(), "true");
    let mut answer = HeaderMap::new();
    assert_eq!(bucket_location(&answer), None);
    answer.insert("location", "/bucket");
    assert_eq!(bucket_location(&answer), Some("/bucket"));
}

#[test]
fn listings_have_their_queries() {
    let m = client();
    let t = moment();
    let b = BucketArgs::new("bucket");
    let r = m.list_objects(&b, &ListObjectsArgs::new().max_keys(10)).send(&keys(), &t).unwrap();
    assert_eq!(r.url, "http://localhost:9022/bucket/?list-type=2&max-keys=10");
    let mut a = ListObjectsArgs::new().prefix("a/").delimiter("/").continuation_token("t=1");
    a.fetch_owner = true;
    a.use_encoding_type = true;
    a.start_after = Some("a/b".to_string());
    let r = m.list_objects(&b, &a).send(&keys(), &t).unwrap();
    assert_eq!(
        r.url,
        "http://localhost:9022/bucket/?continuation-token=t%3D1&delimiter=%2F&encoding-type=url&fetch-owner=true&list-type=2&max-keys=1000&prefix=a%2F&start-after=a%2Fb"
    );
    let mut v = ListObjectVersionsArgs::new();
    v.max_keys = 100;
    v.key_marker = Some("k".to_string());
    let r = m.list_object_versions(&b, &v).send(&keys(), &t).unwrap();
    assert_eq!(r.url, "http://localhost:9022/bucket/?key-marker=k&max-keys=100&versions=");
}

#[test]
fn listing_goes_on_while_it_is_cut_short() {
    let first = next_page(None).unwrap();
    assert_eq!(first.args_query_map().to_query_string(), "delimiter=&list-type=2&max-keys=100&prefix=");
    let more = PageEnd { is_truncated: true, next_continuation_token: "tok".to_string() };
    let next = next_page(Some(&more)).unwrap();
    assert_eq!(
        next.args_query_map().to_query_string(),
        "continuation-token=tok&delimiter=&list-type=2&max-keys=100&prefix="
    );
    let last = PageEnd { is_truncated: false, next_continuation_token: "tok".to_string() };
    assert!(next_page(Some(&last)).is_none());
    let m = client();
    let b = BucketArgs::new("bucket");
    assert!(m.list_objects_stream(&b, Some(&last)).is_none());
    let r = m.list_objects_stream(&b, Some(&more)).unwrap().send(&keys(), &moment()).unwrap();
    assert_eq!(
        r.url,
        "http://localhost:9022/bucket/?continuation-token=tok&delimiter=&list-type=2&max-keys=100&prefix="
    );
    assert!(m.list_objects_stream(&b, None).is_some());
}

#[test]
fn object_requests() {
    let m = client();
    let t = moment();
    let mut ssec = HeaderMap::new();
    ssec.insert("x-amz-server-side-encryption-customer-algorithm", "AES256");
    let a = ObjectArgs::new("bucket", "file.txt")
        .version_id(Some("v1".to_string()))
        .content_type(Some("text/plain".to_string()))
        .expected_bucket_owner(Some("me".to_string()))
        .ssec_headers(Some(ssec))
        .offset(10)
        .length(5);
    assert_eq!(a.range(), Some("bytes=10-14".to_string()));
    let r = m.get_object(&a).send(&keys(), &t).unwrap();
    assert_eq!(r.method, Method::Get);
    assert_eq!(
        r.url,
        "http://localhost:9022/bucket/file.txt?response-content-type=text%2Fplain&versionId=v1"
    );
    assert_eq!(header(&r, "Range").unwrap(), "bytes=10-14");
    assert_eq!(header(&r, "x-amz-expected-bucket-owner").unwrap(), "me");
    assert_eq!(header(&r, "x-amz-server-side-encryption-customer-algorithm").unwrap(), "AES256");

    let r = m.stat_object(&a).send(&keys(), &t).unwrap();
    assert_eq!((r.method, r.url.as_str()), (Method::Head, "http://localhost:9022/bucket/file.txt?versionId=v1"));
    assert!(header(&r, "x-amz-server-side-encryption-customer-algorithm").is_some());
    let r = m.remove_object(&a).send(&keys(), &t).unwrap();
    assert_eq!((r.method, r.url.as_str()), (Method::Delete, "http://localhost:9022/bucket/file.txt?versionId=v1"));
    let r = m.get_object_tags(&a).send(&keys(), &t).unwrap();
    assert_eq!(r.url, "http://localhost:9022/bucket/file.txt?tagging=&versionId=v1");
    assert!(header(&r, "x-amz-server-side-encryption-customer-algorithm").is_none());
    let r = m.delete_object_tags(&a).send(&keys(), &t).unwrap();
    assert_eq!(r.method, Method::Delete);
    let r = m.set_object_tags(&a, b"<Tagging/>".to_vec()).send(&keys(), &t).unwrap();
    assert_eq!((r.method, r.body.to_vec()), (Method::Put, b"<Tagging/>".to_vec()));
    assert!(header(&r, "Content-MD5").is_some());
    let r = m.get_object_retention(&a).send(&keys(), &t).unwrap();
    assert_eq!(r.url, "http://localhost:9022/bucket/file.txt?retention=&versionId=v1");
    let r = m.set_object_retention(&a, b"<Retention/>".to_vec()).send(&keys(), &t).unwrap();
    assert_eq!(r.url, "http://localhost:9022/bucket/file.txt?retention=&versionId=v1");
    let r = m.is_object_legal_hold_enabled(&a).send(&keys(), &t).unwrap();
    assert_eq!(r.url, "http://localhost:9022/bucket/file.txt?legal-hold=&versionId=v1");
    let r = m.enable_object_legal_hold_enabled(&a).send(&keys(), &t).unwrap();
    assert_eq!(r.body, b"<LegalHold><Status>ON</Status></LegalHold>".to_vec());
    let r = m.disable_object_legal_hold_enabled(&a).send(&keys(), &t).unwrap();
    assert_eq!(r.body, b"<LegalHold><Status>OFF</Status></LegalHold>".to_vec());
    let r = match m.put_object(&ObjectArgs::new("bucket", "k"), Bytes::from_static(b"data")) {
        Ok(PutObject::Single(e)) => e.send(&keys(), &t).unwrap(),
        _ => panic!("expected one request"),
    };
    assert_eq!((r.method, r.body.to_vec()), (Method::Put, b"data".to_vec()));
    assert_eq!(header(&r, "Range"), None);
    let big = Bytes::from(vec![7u8; 5 * 1024 * 1024 + 3]);
    match m.put_object(&ObjectArgs::new("bucket", "k"), big.clone()) {
        Ok(PutObject::Multipart { plan, data }) => {
            assert_eq!(plan.part_sizes(), vec![5 * 1024 * 1024, 3]);
            assert_eq!(data, big);
            assert_eq!(minio_rsc::payload::part_of(&data, &plan, 1), Some(Bytes::from_static(&[7, 7, 7])));
        }
        _ => panic!("expected parts"),
    }
    let edge = Bytes::from(vec![0u8; 5 * 1024 * 1024]);
    assert!(matches!(m.put_object(&ObjectArgs::new("bucket", "k"), edge), Ok(PutObject::Single(_))));
}

#[test]
fn ranges_of_objects() {
    assert_eq!(ObjectArgs::new("b", "k").range(), None);
    assert_eq!(ObjectArgs::new("b", "k").offset(7).range(), Some("bytes=7-".to_string()));
    assert_eq!(ObjectArgs::new("b", "k").length(7).range(), Some("bytes=0-6".to_string()));
    assert_eq!(
        ObjectArgs::new("b", "k").offset(u64::MAX).length(2).range(),
        Some("bytes=18446744073709551615-18446744073709551615".to_string())
    );
}

#[test]
fn copies_name_their_source() {
    let m = client();
    let t = moment();
    let src = CopySource::from(ObjectArgs::new("from", "a b/c").version_id(Some("v 1".to_string())))
        .metadata_replace(true);
    let h = src.extra_headers();
    assert_eq!(h.get("x-amz-copy-source"), Some("/from/a%20b/c?versionId=v%201"));
    assert_eq!(h.get("x-amz-metadata-directive"), Some("REPLACE"));
    assert_eq!(CopySource::new("from", "k").extra_headers().len(), 1);
    let r = m.copy_object(&ObjectArgs::new("bucket", "to"), &src).send(&keys(), &t).unwrap();
    assert_eq!((r.method, r.url.as_str()), (Method::Put, "http://localhost:9022/bucket/to?"));
    assert_eq!(header(&r, "Content-Type").unwrap(), "binary/octet-stream");
    assert_eq!(header(&r, "x-amz-copy-source").unwrap(), "/from/a%20b/c?versionId=v%201");
    let r = m
        .set_content_type(ObjectArgs::new("bucket", "k"), "image/png".to_string())
        .send(&keys(), &t)
        .unwrap();
    assert_eq!(header(&r, "Content-Type").unwrap(), "image/png");
    assert_eq!(header(&r, "x-amz-copy-source").unwrap(), "/bucket/k");
    assert_eq!(header(&r, "x-amz-metadata-directive").unwrap(), "REPLACE");
}

#[test]
fn multipart_requests_carry_the_upload_id() {
    let m = client();
    let t = moment();
    let a = ObjectArgs::new("bucket", "big.bin").content_type(Some("video/mp4".to_string()));
    let r = m.create_multipart_upload(&a).send(&keys(), &t).unwrap();
    assert_eq!((r.method, r.url.as_str()), (Method::Post, "http://localhost:9022/bucket/big.bin?uploads="));
    assert_eq!(header(&r, "Content-Type").unwrap(), "video/mp4");
    let mut s = MultipartSession::new("bucket", "big.bin", "id/1", 5).unwrap();
    let r = m.upload_part(&s, 2, Bytes::from_static(b"part")).send(&keys(), &t).unwrap();
    assert_eq!(
        (r.method, r.url.as_str()),
        (Method::Put, "http://localhost:9022/bucket/big.bin?partNumber=2&uploadId=id%2F1")
    );
    assert_eq!(r.body, b"part".to_vec());
    s.add_part("\"e1\"".to_string(), 5).unwrap();
    let r = m.complete_multipart_upload(&s).send(&keys(), &t).unwrap();
    assert_eq!((r.method, r.url.as_str()), (Method::Post, "http://localhost:9022/bucket/big.bin?uploadId=id%2F1"));
    assert_eq!(
        String::from_utf8(r.body.to_vec()).unwrap(),
        "<CompleteMultipartUpload><Part><PartNumber>1</PartNumber><ETag>\"e1\"</ETag></Part></CompleteMultipartUpload>"
    );
    let r = m.abort_multipart_upload(&s).send(&keys(), &t).unwrap();
    assert_eq!((r.method, r.url.as_str()), (Method::Delete, "http://localhost:9022/bucket/big.bin?uploadId=id%2F1"));
    assert!(r.body.is_empty());
}

#[test]
fn payloads_go_in_one_piece_or_in_parts() {
    assert!(matches!(upload_mode(0), Ok(UploadMode::Single)));
    assert!(matches!(upload_mode(5 * 1024 * 1024), Ok(UploadMode::Single)));
    match upload_mode(12 * 1024 * 1024) {
        Ok(UploadMode::Multipart(plan)) => {
            assert_eq!(plan.part_sizes(), vec![5242880, 5242880, 2097152]);
        }
        _ => panic!("expected parts"),
    }
    assert!(matches!(upload_mode(5 * 1024 * 1024 + 1), Ok(UploadMode::Multipart(_))));
    assert!(matches!(upload_mode(5497558138880), Ok(UploadMode::Multipart(_))));
    assert!(matches!(upload_mode(5497558138881), Err(ValueError::ObjectTooLarge)));
}

#[test]
fn sizes_are_read_or_count_as_zero() {
    assert_eq!(parse_size("0"), 0);
    assert_eq!(parse_size("12345"), 12345);
    assert_eq!(parse_size("+7"), 7);
    assert_eq!(parse_size("007"), 7);
    assert_eq!(parse_size("18446744073709551615"), u64::MAX);
    assert_eq!(parse_size("18446744073709551616"), 0);
    assert_eq!(parse_size("99999999999999999999999"), 0);
    assert_eq!(parse_size(""), 0);
    assert_eq!(parse_size("+"), 0);
    assert_eq!(parse_size("-1"), 0);
    assert_eq!(parse_size("1 "), 0);
    assert_eq!(parse_size("12a"), 0);
    assert_eq!(strip_quotes("\"abc\""), "abc");
    assert_eq!(strip_quotes("a\"b\"\"c"), "abc");
    assert_eq!(strip_quotes(""), "");
}

#[test]
fn object_stat_is_read_from_the_headers() {
    let a = ObjectArgs::new("bucket", "file.txt");
    let mut h = HeaderMap::new();
    h.insert("ETag", "\"9b2cf535f27731c974343645a3985328\"");
    h.insert("Content-Length", "1024");
    h.insert("Last-Modified", "Wed, 12 Oct 2009 17:50:00 GMT");
    h.insert("Content-Type", "text/plain");
    h.insert("x-amz-version-id", "3HL4kqtJlcpXroDTDmJ");
    let s = object_stat(&a, 200, &h).unwrap();
    assert_eq!(s.bucket_name, "bucket");
    assert_eq!(s.object_name, "file.txt");
    assert_eq!(s.etag, "9b2cf535f27731c974343645a3985328");
    assert_eq!(s.size, 1024);
    assert_eq!(s.last_modified, "Wed, 12 Oct 2009 17:50:00 GMT");
    assert_eq!(s.content_type, "text/plain");
    assert_eq!(s.version_id, "3HL4kqtJlcpXroDTDmJ");
    assert_eq!(object_stat(&a, 404, &h), None);
    let empty = object_stat(&a, 204, &HeaderMap::new()).unwrap();
    assert_eq!((empty.etag.as_str(), empty.size, empty.version_id.as_str()), ("", 0, ""));
}

#[test]
fn codes_that_mean_absence() {
    assert_eq!(bucket_tags_outcome(Ok(3)), Ok(Some(3)));
    assert_eq!(bucket_tags_outcome::<u8>(Err(Error::S3Error(no_such("NoSuchTagSet")))), Ok(None));
    assert_eq!(
        bucket_tags_outcome::<u8>(Err(Error::S3Error(no_such("AccessDenied")))),
        Err(Error::S3Error(no_such("AccessDenied")))
    );
    assert_eq!(
        bucket_tags_outcome::<u8>(Err(Error::XmlError("NoSuchTagSet".to_string()))),
        Err(Error::XmlError("NoSuchTagSet".to_string()))
    );
    assert_eq!(none_on_code::<u8>(Err(Error::S3Error(no_such("X"))), "X"), Ok(None));
    assert_eq!(legal_hold_outcome(Ok(true)), Ok(true));
    assert_eq!(legal_hold_outcome(Ok(false)), Ok(false));
    assert_eq!(
        legal_hold_outcome(Err(Error::S3Error(no_such("NoSuchObjectLockConfiguration")))),
        Ok(false)
    );
    assert_eq!(
        legal_hold_outcome(Err(Error::S3Error(no_such("NoSuchKey")))),
        Err(Error::S3Error(no_such("NoSuchKey")))
    );
    assert_eq!(legal_hold_status("<LegalHold><Status>ON</Status></LegalHold>"), Ok(true));
    assert_eq!(legal_hold_status("<LegalHold><Status>OFF</Status></LegalHold>"), Ok(false));
    assert_eq!(legal_hold_status("<LegalHold/>"), Err(Error::XmlError("Status".to_string())));
}
