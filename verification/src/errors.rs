//! The failures that the library reports.
use vstd::prelude::*;
use vstd::string::*;

verus! {

/// A value handed to the library that it refuses before any request is
/// made.
#[derive(Clone, Copy, Debug, PartialEq, Eq, Structural)]
pub enum ValueError {
    /// The client was built without a host.
    MissHost,
    /// The host is not of the form `[http(s)://]name[:port]`.
    InvalidHostname,
    /// The client was built without a credential provider.
    MissProvider,
    /// The agent cannot stand in a header.
    InvalidAgent,
    /// The host cannot stand in a header.
    InvalidHost,
    /// A bucket name is shorter than 3 or longer than 63 characters.
    BucketNameLength,
    /// A bucket name holds a character other than `a-z`, `0-9`, `.`, `-`.
    BucketNameCharset,
    /// A bucket name starts or ends with a hyphen.
    BucketNameHyphen,
    /// A bucket name has the form of an IP address.
    BucketNameIpAddress,
    /// An object name is empty.
    EmptyObjectName,
    /// An object is named without a bucket.
    MissBucketName,
    /// An object is larger than a multipart upload can hold.
    ObjectTooLarge,
    /// The access key is empty, or the session token cannot stand in a
    /// header.
    InvalidCredentials,
    /// The `Authorization` header that signing gives cannot stand in a
    /// header: the access key or the region holds a control character.
    InvalidAuthorization,
    /// A part size of zero.
    InvalidPartSize,
    /// A multipart upload was completed or given up before.
    SessionClosed,
    /// A part under the part size is followed by another part.
    UndersizedPart,
}

impl ValueError {
    /// The text of the failure.
    pub open spec fn spec_message(self) -> Seq<char> {
        match self {
            ValueError::MissHost => "Miss host"@,
            ValueError::InvalidHostname => "Invalid hostname"@,
            ValueError::MissProvider => "Miss provide"@,
            ValueError::InvalidAgent => "Invalid agent"@,
            ValueError::InvalidHost => "Invalid host"@,
            ValueError::BucketNameLength => "Bucket name must be between 3 and 63 characters long."@,
            ValueError::BucketNameCharset => "Bucket name does not follow S3 standards."@,
            ValueError::BucketNameHyphen => "Bucket name cannot start or end with a hyphen."@,
            ValueError::BucketNameIpAddress => "Bucket name cannot be an ip address."@,
            ValueError::EmptyObjectName => "Object name cannot be empty."@,
            ValueError::MissBucketName => "Miss bucket name."@,
            ValueError::ObjectTooLarge => "max object size is 5TiB"@,
            ValueError::InvalidCredentials => "Invalid credentials"@,
            ValueError::InvalidAuthorization => "Invalid authorization"@,
            ValueError::InvalidPartSize => "Part size cannot be zero."@,
            ValueError::SessionClosed => "Multipart upload is completed or aborted."@,
            ValueError::UndersizedPart => "Only the last part may be smaller than the part size."@,
        }
    }

    /// The text of the failure.
    pub fn message(&self) -> (s: String)
        ensures
            s@ == self.spec_message(),
    {
        let text = match self {
            ValueError::MissHost => "Miss host",
            ValueError::InvalidHostname => "Invalid hostname",
            ValueError::MissProvider => "Miss provide",
            ValueError::InvalidAgent => "Invalid agent",
            ValueError::InvalidHost => "Invalid host",
            ValueError::BucketNameLength => "Bucket name must be between 3 and 63 characters long.",
            ValueError::BucketNameCharset => "Bucket name does not follow S3 standards.",
            ValueError::BucketNameHyphen => "Bucket name cannot start or end with a hyphen.",
            ValueError::BucketNameIpAddress => "Bucket name cannot be an ip address.",
            ValueError::EmptyObjectName => "Object name cannot be empty.",
            ValueError::MissBucketName => "Miss bucket name.",
            ValueError::ObjectTooLarge => "max object size is 5TiB",
            ValueError::InvalidCredentials => "Invalid credentials",
            ValueError::InvalidAuthorization => "Invalid authorization",
            ValueError::InvalidPartSize => "Part size cannot be zero.",
            ValueError::SessionClosed => "Multipart upload is completed or aborted.",
            ValueError::UndersizedPart => "Only the last part may be smaller than the part size.",
        };
        String::from_str(text)
    }
}

/// What the service said of a request that it refused.
#[derive(Clone, Debug, PartialEq, Eq)]
pub struct S3Error {
    pub code: String,
    pub message: String,
    pub resource: String,
    pub request_id: String,
}

/// Any failure of an operation.
#[derive(Clone, Debug, PartialEq, Eq)]
pub enum Error {
    /// A value was refused before any request was made.
    ValueError(ValueError),
    /// The service refused the request.
    S3Error(S3Error),
    /// The body of a response could not be understood.
    XmlError(String),
    /// The request could not be carried to the service.
    RequestError(String),
    /// A local read or write failed.
    IoError(String),
}

} // verus!
