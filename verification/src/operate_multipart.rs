//! The four requests of a multipart upload.
use vstd::prelude::*;
use vstd::string::*;
use vstd::utf8::*;
use crate::args::{text_of, with_opt_header, ObjectArgs};
use crate::client::{Method, Minio};
use crate::executor::{fresh_request, BaseExecutor, RequestView};
use crate::multipart::{completion_xml, MultipartSession, SessionView};
use crate::operate_object::object_request;
use bytes::Bytes;
use crate::payload::{bytes_from_vec, bytes_of};
use crate::text::{decimal, decimal_string};

verus! {

/// A request on the object of a session, with the session's upload id as
/// the query parameter `uploadId`.
pub open spec fn session_request(method: Method, region: Seq<char>, s: SessionView) -> RequestView {
    RequestView {
        bucket_name: Some(s.bucket),
        object_name: Some(s.key),
        querys: Map::empty().insert("uploadId"@, s.upload_id),
        ..fresh_request(method, region)
    }
}

impl<P> Minio<P> {
    /// The request that initiates a multipart upload of the object that
    /// `args` names: the query parameter `uploads`, and the content type
    /// of the object, where one is named. The service answers with the
    /// upload id; see [`crate::xml::upload_id_of`].
    pub fn create_multipart_upload(&self, args: &ObjectArgs) -> (e: BaseExecutor<'_, P>)
        ensures
            e@ == (RequestView {
                querys: object_request(Method::Post, self@.region, *args, true, false).querys.insert(
                    "uploads"@,
                    ""@,
                ),
                headers: with_opt_header(
                    object_request(Method::Post, self@.region, *args, true, false).headers,
                    "Content-Type"@,
                    text_of(args.content_type),
                ),
                ..object_request(Method::Post, self@.region, *args, true, false)
            }),
            e.client() == self,
    {
        let e = self.object_executor(Method::Post, args, true, false).query("uploads", "");
        match &args.content_type {
            Some(t) => e.header("Content-Type", t.as_str()),
            None => e,
        }
    }

    fn session_executor(&self, method: Method, session: &MultipartSession) -> (e: BaseExecutor<
        '_,
        P,
    >)
        ensures
            e@ == session_request(method, self@.region, session@),
            e.client() == self,
    {
        self.executor(method).bucket_name(session.bucket()).object_name(session.key()).query(
            "uploadId",
            session.upload_id(),
        )
    }

    /// The request that sends `body` as the part `part_number` of the
    /// upload of `session`.
    pub fn upload_part(&self, session: &MultipartSession, part_number: u64, body: Bytes) -> (e:
        BaseExecutor<'_, P>)
        ensures
            e@ == (RequestView {
                querys: session_request(Method::Put, self@.region, session@).querys.insert(
                    "partNumber"@,
                    decimal(part_number as nat),
                ),
                body: Some(bytes_of(body)),
                ..session_request(Method::Put, self@.region, session@)
            }),
            e.client() == self,
    {
        let number = decimal_string(part_number);
        self.session_executor(Method::Put, session).query("partNumber", number.as_str()).body(body)
    }

    /// The request that completes the upload of `session`: its body lists
    /// the parts that the session has recorded, in ascending order of their
    /// numbers.
    pub fn complete_multipart_upload(&self, session: &MultipartSession) -> (e: BaseExecutor<'_, P>)
        ensures
            e@ == (RequestView {
                body: Some(encode_utf8(completion_xml(session@.parts))),
                ..session_request(Method::Post, self@.region, session@)
            }),
            e.client() == self,
    {
        let body = session.completion_body();
        self.session_executor(Method::Post, session).body(
            bytes_from_vec(body.as_str().as_bytes_vec()),
        )
    }

    /// The request that gives up the upload of `session`, so that the
    /// service releases the parts it has taken.
    pub fn abort_multipart_upload(&self, session: &MultipartSession) -> (e: BaseExecutor<'_, P>)
        ensures
            e@ == session_request(Method::Delete, self@.region, session@),
            e.client() == self,
    {
        self.session_executor(Method::Delete, session)
    }
}

} // verus!
