use minio_rsc::digest::EMPTY_CONTENT_SHA256;
use minio_rsc::headers::HeaderMap;
use minio_rsc::signer::{
    authorization_header, canonical_headers, canonical_request, credential_scope,
    sign_v4_authorization, signed_headers, string_to_sign,
};
use minio_rsc::time::{aws_format_date, aws_format_time, Timestamp};

const ACCESS_KEY: &str = "SECRET-REDACTED";
const SECRET_KEY: &str = "wJalrXUtnFEMI/K7MDENG/bPxRfiCYEXAMPLEKEY";

fn example_moment() -> Timestamp {
    Timestamp::new(2013, 5, 24, 0, 0, 0).unwrap()
}

fn example_headers() -> HeaderMap {
    let mut h = HeaderMap::new();
    assert!(h.insert("X-Amz-Date", "20130524T000000Z"));
    assert!(h.insert("Host", "examplebucket.s3.amazonaws.com"));
    assert!(h.insert("x-amz-content-sha256", EMPTY_CONTENT_SHA256));
    assert!(h.insert("Range", "bytes=0-9"));
    h
}

#[test]
fn moment_renders_in_both_forms() {
    let t = example_moment();
    assert_eq!(aws_format_time(&t), "20130524T000000Z");
    assert_eq!(aws_format_date(&t), "20130524");
    let late = Timestamp::new(9999, 12, 31, 23, 59, 59).unwrap();
    assert_eq!(aws_format_time(&late), "99991231T235959Z");
    let early = Timestamp::new(7, 1, 2, 3, 4, 5).unwrap();
    assert_eq!(aws_format_time(&early), "00070102T030405Z");
}

#[test]
fn moment_refuses_fields_out_of_range() {
    assert!(Timestamp::new(2023, 2, 29, 0, 0, 0).is_none());
    assert!(Timestamp::new(2024, 2, 29, 0, 0, 0).is_some());
    assert!(Timestamp::new(1900, 2, 29, 0, 0, 0).is_none());
    assert!(Timestamp::new(2000, 2, 29, 0, 0, 0).is_some());
    assert!(Timestamp::new(2023, 4, 31, 0, 0, 0).is_none());
    assert!(Timestamp::new(2023, 13, 1, 0, 0, 0).is_none());
    assert!(Timestamp::new(2023, 0, 1, 0, 0, 0).is_none());
    assert!(Timestamp::new(2023, 1, 0, 0, 0, 0).is_none());
    assert!(Timestamp::new(2023, 1, 1, 24, 0, 0).is_none());
    assert!(Timestamp::new(2023, 1, 1, 0, 60, 0).is_none());
    assert!(Timestamp::new(2023, 1, 1, 0, 0, 60).is_none());
    assert!(Timestamp::new(10000, 1, 1, 0, 0, 0).is_none());
    assert!(Timestamp::new(-1, 1, 1, 0, 0, 0).is_none());
}

#[test]
fn the_clock_gives_a_moment() {
    let t = Timestamp::now().unwrap();
    assert!(t.year() >= 2024);
    assert_eq!(aws_format_time(&t).len(), 16);
}

#[test]
fn canonical_headers_are_sorted_and_lower_case() {
    let h = example_headers();
    assert_eq!(
        canonical_headers(&h),
        "host:examplebucket.s3.amazonaws.com\nrange:bytes=0-9\nx-amz-content-sha256:e3b0c44298fc1c149afbf4c8996fb92427ae41e4649b934ca495991b7852b855\nx-amz-date:20130524T000000Z"
    );
    assert_eq!(signed_headers(&h), "host;range;x-amz-content-sha256;x-amz-date");
}

#[test]
fn header_values_have_their_blanks_normalised() {
    let mut h = HeaderMap::new();
    assert!(h.insert("My-Header", "  a   b \t c  "));
    assert!(h.insert("Other", "\t"));
    assert_eq!(canonical_headers(&h), "my-header:a b c\nother:");
}

#[test]
fn canonical_request_of_the_published_get() {
    let h = example_headers();
    let text = canonical_request("GET", "/test.txt", "", &h, EMPTY_CONTENT_SHA256);
    assert_eq!(
        text,
        "GET\n/test.txt\n\nhost:examplebucket.s3.amazonaws.com\nrange:bytes=0-9\nx-amz-content-sha256:e3b0c44298fc1c149afbf4c8996fb92427ae41e4649b934ca495991b7852b855\nx-amz-date:20130524T000000Z\n\nhost;range;x-amz-content-sha256;x-amz-date\ne3b0c44298fc1c149afbf4c8996fb92427ae41e4649b934ca495991b7852b855"
    );
}

#[test]
fn string_to_sign_of_the_published_get() {
    let t = example_moment();
    let scope = credential_scope(&t, "us-east-1", "s3");
    assert_eq!(scope, "20130524/us-east-1/s3/aws4_request");
    let text = string_to_sign(
        &t,
        &scope,
        "7344ae5b7ee6c3e7e6b0fe0640412a37625d1fbfff95c48bbb2dc43964946972",
    );
    assert_eq!(
        text,
        "AWS4-HMAC-SHA256\n20130524T000000Z\n20130524/us-east-1/s3/aws4_request\n7344ae5b7ee6c3e7e6b0fe0640412a37625d1fbfff95c48bbb2dc43964946972"
    );
}

#[test]
fn authorization_header_is_put_together() {
    assert_eq!(
        authorization_header("AK", "20130524/us-east-1/s3/aws4_request", "host;x-amz-date", "abcd"),
        "AWS4-HMAC-SHA256 Credential=AK/20130524/us-east-1/s3/aws4_request, SignedHeaders=host;x-amz-date, Signature=abcd"
    );
}

#[test]
fn signature_of_the_published_get() {
    let h = example_headers();
    let auth = sign_v4_authorization(
        "GET",
        "/test.txt",
        "",
        "us-east-1",
        "s3",
        &h,
        ACCESS_KEY,
        SECRET_KEY,
        EMPTY_CONTENT_SHA256,
        &example_moment(),
    );
    assert_eq!(
        auth,
        "AWS4-HMAC-SHA256 Credential=SECRET-REDACTED/20130524/us-east-1/s3/aws4_request, SignedHeaders=host;range;x-amz-content-sha256;x-amz-date, Signature=f0e8bdb87c964420e857bd35b5d6ed310bd44f0170aba48dd91039c6036bdb41"
    );
}

#[test]
fn signature_of_the_published_bucket_listing() {
    let mut h = HeaderMap::new();
    assert!(h.insert("Host", "examplebucket.s3.amazonaws.com"));
    assert!(h.insert("x-amz-content-sha256", EMPTY_CONTENT_SHA256));
    assert!(h.insert("x-amz-date", "20130524T000000Z"));
    let auth = sign_v4_authorization(
        "GET",
        "/",
        "max-keys=2&prefix=J",
        "us-east-1",
        "s3",
        &h,
        ACCESS_KEY,
        SECRET_KEY,
        EMPTY_CONTENT_SHA256,
        &example_moment(),
    );
    assert_eq!(
        auth,
        "AWS4-HMAC-SHA256 Credential=SECRET-REDACTED/20130524/us-east-1/s3/aws4_request, SignedHeaders=host;x-amz-content-sha256;x-amz-date, Signature=34b48302e7b5fa45bde8084f4b7868a86f0a534bc59db6670ed5711ef69dc6f7"
    );
}

#[test]
fn signing_twice_at_one_moment_gives_one_header() {
    let h = example_headers();
    let t = example_moment();
    let a = sign_v4_authorization("GET", "/test.txt", "", "us-east-1", "s3", &h, ACCESS_KEY, SECRET_KEY, EMPTY_CONTENT_SHA256, &t);
    let b = sign_v4_authorization("GET", "/test.txt", "", "us-east-1", "s3", &h, ACCESS_KEY, SECRET_KEY, EMPTY_CONTENT_SHA256, &t);
    assert_eq!(a, b);
}

#[test]
fn signing_at_two_moments_gives_two_headers() {
    let h = example_headers();
    let t1 = example_moment();
    let t2 = Timestamp::new(2013, 5, 24, 0, 0, 1).unwrap();
    let t3 = Timestamp::new(2013, 5, 25, 0, 0, 0).unwrap();
    let a = sign_v4_authorization("GET", "/test.txt", "", "us-east-1", "s3", &h, ACCESS_KEY, SECRET_KEY, EMPTY_CONTENT_SHA256, &t1);
    let b = sign_v4_authorization("GET", "/test.txt", "", "us-east-1", "s3", &h, ACCESS_KEY, SECRET_KEY, EMPTY_CONTENT_SHA256, &t2);
    let c = sign_v4_authorization("GET", "/test.txt", "", "us-east-1", "s3", &h, ACCESS_KEY, SECRET_KEY, EMPTY_CONTENT_SHA256, &t3);
    assert_ne!(a, b);
    assert_ne!(a, c);
    assert_ne!(b, c);
}

#[test]
fn moment_gives_back_its_fields() {
    let t = Timestamp::new(2021, 12, 31, 23, 59, 58).unwrap();
    assert_eq!(
        (t.year(), t.month(), t.day(), t.hour(), t.minute(), t.second()),
        (2021, 12, 31, 23, 59, 58)
    );
    assert_eq!(t, Timestamp::new(2021, 12, 31, 23, 59, 58).unwrap());
    assert_ne!(t, Timestamp::new(2021, 12, 31, 23, 59, 59).unwrap());
}

#[test]
fn moments_that_differ_render_differently() {
    let a = Timestamp::new(2021, 1, 11, 0, 0, 0).unwrap();
    let b = Timestamp::new(2021, 11, 1, 0, 0, 0).unwrap();
    assert_ne!(aws_format_date(&a), aws_format_date(&b));
    assert_eq!(aws_format_date(&a), "20210111");
    assert_eq!(aws_format_date(&b), "20211101");
}

#[test]
fn moments_are_counted_from_1970() {
    assert_eq!(aws_format_time(&Timestamp::from_unix(0).unwrap()), "19700101T000000Z");
    assert_eq!(aws_format_time(&Timestamp::from_unix(1369353600).unwrap()), "20130524T000000Z");
    assert_eq!(aws_format_time(&Timestamp::from_unix(951782400).unwrap()), "20000229T000000Z");
    assert_eq!(aws_format_time(&Timestamp::from_unix(-1).unwrap()), "19691231T235959Z");
    assert_eq!(aws_format_time(&Timestamp::from_unix(253402300799).unwrap()), "99991231T235959Z");
    assert!(Timestamp::from_unix(253402300800).is_none());
    assert!(Timestamp::from_unix(-62167219201).is_none());
    assert_eq!(aws_format_time(&Timestamp::from_unix(-62167219200).unwrap()), "00000101T000000Z");
    assert!(Timestamp::from_unix(i64::MAX).is_none());
    assert!(Timestamp::from_unix(i64::MIN).is_none());
}
