use minio_rsc::errors::ValueError;
use minio_rsc::validate::{check_bucket_name, check_target};

#[test]
fn bucket_names_that_are_accepted() {
    assert_eq!(check_bucket_name("abc"), Ok(()));
    assert_eq!(check_bucket_name("my-bucket.1"), Ok(()));
    assert_eq!(check_bucket_name("a.b"), Ok(()));
    assert_eq!(check_bucket_name("1.2.3"), Ok(()));
    assert_eq!(check_bucket_name("1.2.3.4.5"), Ok(()));
    assert_eq!(check_bucket_name("1.2.3.x"), Ok(()));
    assert_eq!(check_bucket_name(&"a".repeat(63)), Ok(()));
}

#[test]
fn bucket_names_that_are_rejected() {
    assert_eq!(check_bucket_name("AB"), Err(ValueError::BucketNameLength));
    assert_eq!(check_bucket_name("a"), Err(ValueError::BucketNameLength));
    assert_eq!(check_bucket_name("192.168.0.1"), Err(ValueError::BucketNameIpAddress));
    assert_eq!(check_bucket_name("-abc"), Err(ValueError::BucketNameHyphen));
}

#[test]
fn bucket_name_faults_by_kind() {
    assert_eq!(check_bucket_name(""), Err(ValueError::BucketNameLength));
    assert_eq!(check_bucket_name("ab"), Err(ValueError::BucketNameLength));
    assert_eq!(check_bucket_name(&"a".repeat(64)), Err(ValueError::BucketNameLength));
    assert_eq!(check_bucket_name("ABC"), Err(ValueError::BucketNameCharset));
    assert_eq!(check_bucket_name("a_b"), Err(ValueError::BucketNameCharset));
    assert_eq!(check_bucket_name("a b"), Err(ValueError::BucketNameCharset));
    assert_eq!(check_bucket_name("bücket"), Err(ValueError::BucketNameCharset));
    assert_eq!(check_bucket_name("abc-"), Err(ValueError::BucketNameHyphen));
    assert_eq!(check_bucket_name("-A-"), Err(ValueError::BucketNameCharset));
    assert_eq!(check_bucket_name("1.1.1.1"), Err(ValueError::BucketNameIpAddress));
    assert_eq!(check_bucket_name("10.20.30.40"), Err(ValueError::BucketNameIpAddress));
    assert_eq!(check_bucket_name("1..1.1"), Ok(()));
    assert_eq!(check_bucket_name(".1.1.1"), Ok(()));
}

#[test]
fn value_errors_have_their_texts() {
    assert_eq!(ValueError::MissHost.message(), "Miss host");
    assert_eq!(ValueError::InvalidHostname.message(), "Invalid hostname");
    assert_eq!(ValueError::MissProvider.message(), "Miss provide");
    assert_eq!(ValueError::InvalidAgent.message(), "Invalid agent");
    assert_eq!(ValueError::InvalidHost.message(), "Invalid host");
    assert_eq!(ValueError::EmptyObjectName.message(), "Object name cannot be empty.");
    assert_eq!(ValueError::MissBucketName.message(), "Miss bucket name.");
    assert_eq!(ValueError::ObjectTooLarge.message(), "max object size is 5TiB");
    assert_eq!(
        ValueError::BucketNameLength.message(),
        "Bucket name must be between 3 and 63 characters long."
    );
    assert_eq!(ValueError::BucketNameCharset.message(), "Bucket name does not follow S3 standards.");
    assert_eq!(
        ValueError::BucketNameHyphen.message(),
        "Bucket name cannot start or end with a hyphen."
    );
    assert_eq!(ValueError::BucketNameIpAddress.message(), "Bucket name cannot be an ip address.");
    assert_eq!(ValueError::InvalidCredentials.message(), "Invalid credentials");
    assert_eq!(ValueError::InvalidAuthorization.message(), "Invalid authorization");
    assert_eq!(ValueError::InvalidPartSize.message(), "Part size cannot be zero.");
    assert_eq!(ValueError::SessionClosed.message(), "Multipart upload is completed or aborted.");
    assert_eq!(
        ValueError::UndersizedPart.message(),
        "Only the last part may be smaller than the part size."
    );
}

#[test]
fn targets_are_checked_bucket_first() {
    assert_eq!(check_target(None, None), Ok(()));
    assert_eq!(check_target(Some("bucket"), None), Ok(()));
    assert_eq!(check_target(Some("bucket"), Some("key")), Ok(()));
    assert_eq!(check_target(Some("b"), Some("")), Err(ValueError::BucketNameLength));
    assert_eq!(check_target(Some("bucket"), Some("")), Err(ValueError::EmptyObjectName));
    assert_eq!(check_target(None, Some("")), Err(ValueError::EmptyObjectName));
    assert_eq!(check_target(None, Some("key")), Err(ValueError::MissBucketName));
}
