//! Client-side core of an S3-compatible object-storage client: request
//! canonicalisation and signing, the request builder, and the multipart
//! upload session. Transport and credential lookup are left to the caller.
pub mod text;
pub mod strmap;
pub mod errors;
pub mod encode;
pub mod validate;
pub mod time;
pub mod digest;
pub mod headers;
pub mod query;
pub mod signer;
pub mod client;
pub mod executor;
pub mod multipart;
pub mod upload;
pub mod args;
pub mod xml;
pub mod operate_bucket;
pub mod operate_object;
pub mod operate_multipart;
pub mod operation_ext;
pub mod payload;

pub use crate::client::{Builder, Credentials, Method, Minio};
pub use crate::executor::BaseExecutor;
