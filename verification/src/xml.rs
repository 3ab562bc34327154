//! The little of XML that the core reads itself: the text of one element
//! by its tag, the service's description of a failure, and the id of an
//! upload.
use vstd::prelude::*;
use vstd::string::*;
use crate::errors::{Error, S3Error};
use crate::text::{from_chars, to_chars};

verus! {

/// `needle` stands in `hay` at the place `i`.
pub open spec fn occurs_at(hay: Seq<char>, needle: Seq<char>, i: int) -> bool {
    &&& 0 <= i
    &&& i + needle.len() <= hay.len()
    &&& hay.subrange(i, i + needle.len()) == needle
}

/// The first place at or behind `from` where `needle` stands in `hay`:
/// `needle` stands there, and nowhere between `from` and there.
pub open spec fn is_first_at(hay: Seq<char>, needle: Seq<char>, from: int, i: int) -> bool {
    &&& from <= i
    &&& occurs_at(hay, needle, i)
    &&& forall|j: int| from <= j < i ==> !occurs_at(hay, needle, j)
}

/// `needle` stands nowhere in `hay` at or behind `from`.
pub open spec fn never_from(hay: Seq<char>, needle: Seq<char>, from: int) -> bool {
    forall|j: int| from <= j ==> !occurs_at(hay, needle, j)
}

/// The start of an element: `<`, the tag, `>`.
pub open spec fn open_tag(tag: Seq<char>) -> Seq<char> {
    seq!['<'] + tag + seq!['>']
}

/// The end of an element: `</`, the tag, `>`.
pub open spec fn close_tag(tag: Seq<char>) -> Seq<char> {
    seq!['<', '/'] + tag + seq!['>']
}

/// `text` is what stands in `xml` between the first start of an element
/// `tag` and the first end of one behind it.
pub open spec fn is_tag_text(xml: Seq<char>, tag: Seq<char>, text: Seq<char>) -> bool {
    exists|i: int, j: int|
        {
            &&& #[trigger] is_first_at(xml, open_tag(tag), 0, i)
            &&& #[trigger] is_first_at(xml, close_tag(tag), i + open_tag(tag).len(), j)
            &&& text == xml.subrange(i + open_tag(tag).len(), j)
        }
}

/// `xml` holds no element `tag` with a start and an end behind it.
pub open spec fn has_no_tag(xml: Seq<char>, tag: Seq<char>) -> bool {
    never_from(xml, open_tag(tag), 0) || exists|i: int|
        {
            &&& #[trigger] is_first_at(xml, open_tag(tag), 0, i)
            &&& never_from(xml, close_tag(tag), i + open_tag(tag).len())
        }
}

fn matches_at(hay: &Vec<char>, needle: &Vec<char>, i: usize) -> (b: bool)
    requires
        i + needle.len() <= hay.len(),
    ensures
        b == occurs_at(hay@, needle@, i as int),
{
    let mut k: usize = 0;
    while k < needle.len()
        invariant
            k <= needle.len(),
            i + needle.len() <= hay.len(),
            forall|x: int| 0 <= x < k ==> hay@[i + x] == needle@[x],
        decreases needle.len() - k,
    {
        if hay[i + k] != needle[k] {
            assert(hay@.subrange(i as int, i + needle.len())[k as int] != needle@[k as int]);
            return false;
        }
        k += 1;
    }
    assert(hay@.subrange(i as int, i + needle.len()) =~= needle@);
    true
}

/// The first place at or behind `from` where `needle` stands in `hay`.
pub fn find(hay: &Vec<char>, needle: &Vec<char>, from: usize) -> (r: Option<usize>)
    ensures
        match r {
            Some(i) => is_first_at(hay@, needle@, from as int, i as int),
            None => never_from(hay@, needle@, from as int),
        },
{
    if needle.len() > hay.len() {
        return None;
    }
    let last = hay.len() - needle.len();
    let mut i: usize = from;
    while i <= last
        invariant
            from <= i,
            last == hay.len() - needle.len(),
            forall|j: int| from <= j < i ==> !occurs_at(hay@, needle@, j),
        decreases last - i,
    {
        if matches_at(hay, needle, i) {
            return Some(i);
        }
        if i == last {
            return None;
        }
        i += 1;
    }
    None
}

fn tag_marks(tag: &str) -> (r: (Vec<char>, Vec<char>))
    ensures
        r.0@ == open_tag(tag@),
        r.1@ == close_tag(tag@),
{
    let name = to_chars(tag);
    let mut open: Vec<char> = Vec::new();
    open.push('<');
    let mut close: Vec<char> = Vec::new();
    close.push('<');
    close.push('/');
    let mut i: usize = 0;
    while i < name.len()
        invariant
            i <= name.len(),
            open@ == seq!['<'] + name@.take(i as int),
            close@ == seq!['<', '/'] + name@.take(i as int),
        decreases name.len() - i,
    {
        open.push(name[i]);
        close.push(name[i]);
        i += 1;
        assert(open@ =~= seq!['<'] + name@.take(i as int));
        assert(close@ =~= seq!['<', '/'] + name@.take(i as int));
    }
    assert(name@.take(name.len() as int) == name@);
    open.push('>');
    close.push('>');
    (open, close)
}

/// The text of the first element `tag` of `xml`: what stands between the
/// first `<tag>` and the first `</tag>` behind it, as it stands there.
/// Nothing is unescaped, and elements are not told from text.
pub fn tag_text(xml: &str, tag: &str) -> (r: Option<String>)
    ensures
        match r {
            Some(t) => is_tag_text(xml@, tag@, t@),
            None => has_no_tag(xml@, tag@),
        },
{
    let hay = to_chars(xml);
    let (open, close) = tag_marks(tag);
    let i = match find(&hay, &open, 0) {
        Some(i) => i,
        None => {
            return None;
        },
    };
    assert(occurs_at(hay@, open@, i as int));
    assert(i + open.len() <= hay.len());
    let start = i + open.len();
    let j = match find(&hay, &close, start) {
        Some(j) => j,
        None => {
            assert(is_first_at(xml@, open_tag(tag@), 0, i as int));
            return None;
        },
    };
    let mut text: Vec<char> = Vec::new();
    let mut k: usize = start;
    while k < j
        invariant
            start <= k <= j <= hay.len(),
            text@ == hay@.subrange(start as int, k as int),
        decreases j - k,
    {
        text.push(hay[k]);
        k += 1;
        assert(text@ =~= hay@.subrange(start as int, k as int));
    }
    assert(is_first_at(xml@, open_tag(tag@), 0, i as int));
    assert(is_first_at(xml@, close_tag(tag@), i + open_tag(tag@).len(), j as int));
    Some(from_chars(&text))
}

/// The text of the element `tag` of `xml`, or nothing where `xml` has no
/// such element.
fn tag_text_or_empty(xml: &str, tag: &str) -> (r: String)
    ensures
        if has_no_tag(xml@, tag@) {
            r@.len() == 0
        } else {
            is_tag_text(xml@, tag@, r@)
        },
{
    match tag_text(xml, tag) {
        Some(t) => {
            proof {
                lemma_tag_text_or_none(xml@, tag@, t@);
            }
            t
        },
        None => String::new(),
    }
}

/// A text has an element's text or has no such element, never both.
pub proof fn lemma_tag_text_or_none(xml: Seq<char>, tag: Seq<char>, text: Seq<char>)
    requires
        is_tag_text(xml, tag, text),
    ensures
        !has_no_tag(xml, tag),
{
    let (i, j) = choose|i: int, j: int|
        {
            &&& #[trigger] is_first_at(xml, open_tag(tag), 0, i)
            &&& #[trigger] is_first_at(xml, close_tag(tag), i + open_tag(tag).len(), j)
            &&& text == xml.subrange(i + open_tag(tag).len(), j)
        };
    if never_from(xml, open_tag(tag), 0) {
        assert(!occurs_at(xml, open_tag(tag), i));
    }
    if exists|x: int|
        {
            &&& #[trigger] is_first_at(xml, open_tag(tag), 0, x)
            &&& never_from(xml, close_tag(tag), x + open_tag(tag).len())
        } {
        let x = choose|x: int|
            {
                &&& #[trigger] is_first_at(xml, open_tag(tag), 0, x)
                &&& never_from(xml, close_tag(tag), x + open_tag(tag).len())
            };
        assert(x == i) by {
            if x < i {
                assert(!occurs_at(xml, open_tag(tag), x));
            } else if i < x {
                assert(!occurs_at(xml, open_tag(tag), i));
            }
        }
        assert(!occurs_at(xml, close_tag(tag), j));
    }
}

/// An element's text is one text only.
pub proof fn lemma_tag_text_unique(xml: Seq<char>, tag: Seq<char>, a: Seq<char>, b: Seq<char>)
    requires
        is_tag_text(xml, tag, a),
        is_tag_text(xml, tag, b),
    ensures
        a == b,
{
    let (i, j) = choose|i: int, j: int|
        {
            &&& #[trigger] is_first_at(xml, open_tag(tag), 0, i)
            &&& #[trigger] is_first_at(xml, close_tag(tag), i + open_tag(tag).len(), j)
            &&& a == xml.subrange(i + open_tag(tag).len(), j)
        };
    let (x, y) = choose|x: int, y: int|
        {
            &&& #[trigger] is_first_at(xml, open_tag(tag), 0, x)
            &&& #[trigger] is_first_at(xml, close_tag(tag), x + open_tag(tag).len(), y)
            &&& b == xml.subrange(x + open_tag(tag).len(), y)
        };
    assert(i == x) by {
        if x < i {
            assert(!occurs_at(xml, open_tag(tag), x));
        } else if i < x {
            assert(!occurs_at(xml, open_tag(tag), i));
        }
    }
    assert(j == y) by {
        if y < j {
            assert(!occurs_at(xml, close_tag(tag), y));
        } else if j < y {
            assert(!occurs_at(xml, close_tag(tag), j));
        }
    }
}

/// What the service's description of a failure holds, where `xml` is
/// one: the texts of its elements `Code`, `Message`, `Resource` and
/// `RequestId`, each empty where the element is missing, but for `Code`,
/// which must be there.
pub open spec fn is_s3_error(xml: Seq<char>, e: S3Error) -> bool {
    &&& is_tag_text(xml, "Code"@, e.code@)
    &&& field_of(xml, "Message"@, e.message@)
    &&& field_of(xml, "Resource"@, e.resource@)
    &&& field_of(xml, "RequestId"@, e.request_id@)
}

/// `text` is the text of the element `tag` of `xml`, or empty where
/// `xml` has no such element.
pub open spec fn field_of(xml: Seq<char>, tag: Seq<char>, text: Seq<char>) -> bool {
    if has_no_tag(xml, tag) {
        text.len() == 0
    } else {
        is_tag_text(xml, tag, text)
    }
}

/// Reads the service's description of a failure. A body without an
/// element `Code` is none, and the failure says so.
pub fn parse_s3_error(xml: &str) -> (r: Result<S3Error, String>)
    ensures
        match r {
            Ok(e) => is_s3_error(xml@, e),
            Err(x) => has_no_tag(xml@, "Code"@) && x@ == "Code"@,
        },
{
    let code = match tag_text(xml, "Code") {
        Some(c) => c,
        None => {
            return Err(String::from_str("Code"));
        },
    };
    Ok(
        S3Error {
            code,
            message: tag_text_or_empty(xml, "Message"),
            resource: tag_text_or_empty(xml, "Resource"),
            request_id: tag_text_or_empty(xml, "RequestId"),
        },
    )
}

/// What a checked send makes of a response: nothing for a status of
/// success; else the failure that the body describes, or the failure to
/// read the body as one.
pub fn check_response(status: u16, body: &str) -> (r: Result<(), Error>)
    ensures
        match r {
            Ok(_) => crate::executor::is_success(status),
            Err(Error::S3Error(e)) => !crate::executor::is_success(status) && is_s3_error(body@, e),
            Err(Error::XmlError(x)) => !crate::executor::is_success(status) && has_no_tag(
                body@,
                "Code"@,
            ) && x@ == "Code"@,
            Err(_) => false,
        },
{
    if crate::executor::status_is_success(status) {
        return Ok(());
    }
    Err(crate::executor::service_failure(parse_s3_error(body)))
}

/// Reads the id of an upload out of the service's answer to its
/// initiation: the text of the element `UploadId`.
pub fn upload_id_of(xml: &str) -> (r: Result<String, Error>)
    ensures
        match r {
            Ok(id) => is_tag_text(xml@, "UploadId"@, id@),
            Err(Error::XmlError(x)) => has_no_tag(xml@, "UploadId"@) && x@ == "UploadId"@,
            Err(_) => false,
        },
{
    match tag_text(xml, "UploadId") {
        Some(id) => Ok(id),
        None => Err(Error::XmlError(String::from_str("UploadId"))),
    }
}

} // verus!
