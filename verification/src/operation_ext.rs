//! Operations put together from others: a change of content type by a
//! copy of an object onto itself, and a listing of objects page by page.
use vstd::prelude::*;
use vstd::string::*;
use crate::args::{list_objects_query, merged, text_of, BucketArgs, CopySource, ListObjectsArgs, ObjectArgs};
use crate::client::{Method, Minio};
use crate::executor::{BaseExecutor, RequestView};
use crate::operate_bucket::bucket_request;
use crate::operate_object::copy_request;

verus! {

/// Largest number of keys on one page of a listing that is walked page
/// by page.
pub const PAGE_SIZE: u32 = 100;

/// What the last page of a listing said of the next: whether the listing
/// was cut short, and the token to go on from.
pub struct PageEnd {
    pub is_truncated: bool,
    pub next_continuation_token: String,
}

/// The options of the next page of a listing: of the first, where no
/// page has been got yet; of the page behind `previous`, where that was
/// cut short; none, where the listing has ended.
pub open spec fn next_page_query(previous: Option<PageEnd>) -> Option<Map<Seq<char>, Seq<char>>> {
    match previous {
        None => Some(page_query(None)),
        Some(p) => if p.is_truncated {
            Some(page_query(Some(p.next_continuation_token@)))
        } else {
            None
        },
    }
}

/// The query parameters of one page of a listing: [`PAGE_SIZE`] keys, no
/// prefix and no delimiter, from `token` on, where there is one.
pub open spec fn page_query(token: Option<Seq<char>>) -> Map<Seq<char>, Seq<char>> {
    crate::args::with_opt_query(
        Map::<Seq<char>, Seq<char>>::empty().insert("list-type"@, "2"@),
        "continuation-token"@,
        token,
    ).insert("delimiter"@, ""@).insert("prefix"@, ""@).insert(
        "max-keys"@,
        crate::text::decimal(PAGE_SIZE as nat),
    )
}

/// The options of the next page of a listing, if there is one; see
/// [`next_page_query`].
pub fn next_page(previous: Option<&PageEnd>) -> (r: Option<ListObjectsArgs>)
    ensures
        match r {
            Some(a) => next_page_query(
                match previous {
                    Some(p) => Some(*p),
                    None => None,
                },
            ) == Some(list_objects_query(a)) && a.extra_headers is None,
            None => next_page_query(
                match previous {
                    Some(p) => Some(*p),
                    None => None,
                },
            ) is None,
        },
{
    let first = ListObjectsArgs::new().max_keys(PAGE_SIZE).prefix("").delimiter("");
    let r = match previous {
        None => Some(first),
        Some(p) => {
            if p.is_truncated {
                Some(first.continuation_token(p.next_continuation_token.as_str()))
            } else {
                None
            }
        },
    };
    proof {
        if r is Some {
            assert(list_objects_query(r->0) =~= next_page_query(
                match previous {
                    Some(p) => Some(*p),
                    None => None,
                },
            )->0);
        }
    }
    r
}

impl<P> Minio<P> {
    /// The request that changes the content type of an object: a copy of
    /// the object onto itself with the new content type, which takes the
    /// metadata of the request in place of the object's.
    pub fn set_content_type(&self, args: ObjectArgs, content_type: String) -> (e: BaseExecutor<
        '_,
        P,
    >)
        ensures
            e@ == copy_request(
                self@.region,
                (ObjectArgs { content_type: Some(content_type), ..args }),
                (CopySource {
                    bucket_name: args.bucket_name,
                    object_name: args.object_name,
                    version_id: args.version_id,
                    metadata_replace: true,
                }),
            ),
            e.client() == self,
    {
        let src = CopySource {
            bucket_name: args.bucket_name.clone(),
            object_name: args.object_name.clone(),
            version_id: match &args.version_id {
                Some(v) => Some(v.clone()),
                None => None,
            },
            metadata_replace: true,
        };
        let dst = args.content_type(Some(content_type));
        self.copy_object(&dst, &src)
    }

    /// The request for the next page of a listing of the objects of a
    /// bucket, [`PAGE_SIZE`] keys a page; none, where the page before was
    /// the last.
    pub fn list_objects_stream(&self, bucket: &BucketArgs, previous: Option<&PageEnd>) -> (r:
        Option<BaseExecutor<'_, P>>)
        ensures
            match r {
                Some(e) => e.client() == self && next_page_query(
                    match previous {
                        Some(p) => Some(*p),
                        None => None,
                    },
                ) is Some && e@ == (RequestView {
                    querys: next_page_query(
                        match previous {
                            Some(p) => Some(*p),
                            None => None,
                        },
                    )->0,
                    ..bucket_request(Method::Get, self@.region, *bucket)
                }),
                None => next_page_query(
                    match previous {
                        Some(p) => Some(*p),
                        None => None,
                    },
                ) is None,
            },
    {
        match next_page(previous) {
            Some(args) => Some(self.list_objects(bucket, &args)),
            None => None,
        }
    }
}

} // verus!
