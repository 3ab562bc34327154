//! The rules on bucket and object names.
use vstd::prelude::*;
use vstd::string::*;
use crate::errors::ValueError;
use crate::text::to_chars;

verus! {

pub open spec fn is_digit(c: char) -> bool {
    '0' <= c <= '9'
}

pub open spec fn is_lower(c: char) -> bool {
    'a' <= c <= 'z'
}

/// The characters that a bucket name may hold.
pub open spec fn is_bucket_char(c: char) -> bool {
    is_lower(c) || is_digit(c) || c == '.' || c == '-'
}

/// Every character of `s` may stand in a bucket name.
pub open spec fn bucket_charset(s: Seq<char>) -> bool {
    forall|i: int| 0 <= i < s.len() ==> is_bucket_char(#[trigger] s[i])
}

/// Number of dots in `s`.
pub open spec fn dots(s: Seq<char>) -> nat
    decreases s.len(),
{
    if s.len() == 0 {
        0
    } else {
        dots(s.drop_last()) + if s.last() == '.' {
            1nat
        } else {
            0nat
        }
    }
}

/// `s` has the form of an IPv4 address: four groups of digits, none
/// empty, with a dot between each two.
pub open spec fn is_ip_literal(s: Seq<char>) -> bool {
    &&& s.len() > 0
    &&& forall|i: int| 0 <= i < s.len() ==> is_digit(#[trigger] s[i]) || s[i] == '.'
    &&& dots(s) == 3
    &&& s[0] != '.'
    &&& s[s.len() - 1] != '.'
    &&& forall|i: int| 0 <= i < s.len() - 1 ==> !(#[trigger] s[i] == '.' && s[i + 1] == '.')
}

/// What is wrong with `s` as a bucket name, if anything. The rules are
/// taken in this order: the length, the characters, the hyphens at the
/// ends, the form of an IP address.
pub open spec fn bucket_name_fault(s: Seq<char>) -> Option<ValueError> {
    if s.len() < 3 || s.len() > 63 {
        Some(ValueError::BucketNameLength)
    } else if !bucket_charset(s) {
        Some(ValueError::BucketNameCharset)
    } else if s[0] == '-' || s[s.len() - 1] == '-' {
        Some(ValueError::BucketNameHyphen)
    } else if is_ip_literal(s) {
        Some(ValueError::BucketNameIpAddress)
    } else {
        None
    }
}

/// `s` is accepted as a bucket name: 3 to 63 characters out of `a-z`,
/// `0-9`, `.` and `-`, no hyphen at either end, and not of the form of an
/// IP address.
pub open spec fn valid_bucket_name(s: Seq<char>) -> bool {
    bucket_name_fault(s) is None
}

fn has_bucket_charset(s: &Vec<char>) -> (b: bool)
    ensures
        b == bucket_charset(s@),
{
    let mut i: usize = 0;
    while i < s.len()
        invariant
            i <= s.len(),
            forall|j: int| 0 <= j < i ==> is_bucket_char(#[trigger] s@[j]),
        decreases s.len() - i,
    {
        let c = s[i];
        if !((c >= 'a' && c <= 'z') || (c >= '0' && c <= '9') || c == '.' || c == '-') {
            return false;
        }
        i += 1;
    }
    true
}

fn looks_like_ip(s: &Vec<char>) -> (b: bool)
    requires
        s@.len() <= 63,
    ensures
        b == is_ip_literal(s@),
{
    let n = s.len();
    if n == 0 {
        return false;
    }
    let mut count: usize = 0;
    let mut i: usize = 0;
    while i < n
        invariant
            i <= n,
            n == s@.len(),
            n <= 63,
            count == dots(s@.take(i as int)),
            count <= i,
            forall|j: int| 0 <= j < i ==> is_digit(#[trigger] s@[j]) || s@[j] == '.',
            forall|j: int| 0 <= j < i as int - 1 ==> !(#[trigger] s@[j] == '.' && s@[j + 1] == '.'),
        decreases n - i,
    {
        let c = s[i];
        proof {
            let t = s@.take(i as int + 1);
            assert(t.drop_last() =~= s@.take(i as int));
            assert(t.last() == c);
        }
        if c == '.' {
            if i > 0 && s[i - 1] == '.' {
                return false;
            }
            count += 1;
        } else if !(c >= '0' && c <= '9') {
            return false;
        }
        i += 1;
    }
    assert(s@.take(n as int) == s@);
    count == 3 && s[0] != '.' && s[n - 1] != '.'
}

/// Checks a bucket name: 3 to 63 characters out of `a-z`, `0-9`, `.` and
/// `-`, no hyphen at either end, and not of the form of an IP address.
pub fn check_bucket_name(name: &str) -> (r: Result<(), ValueError>)
    ensures
        match r {
            Ok(_) => valid_bucket_name(name@),
            Err(e) => bucket_name_fault(name@) == Some(e),
        },
{
    let s = to_chars(name);
    let n = s.len();
    if n < 3 || n > 63 {
        return Err(ValueError::BucketNameLength);
    }
    if !has_bucket_charset(&s) {
        return Err(ValueError::BucketNameCharset);
    }
    if s[0] == '-' || s[n - 1] == '-' {
        return Err(ValueError::BucketNameHyphen);
    }
    if looks_like_ip(&s) {
        return Err(ValueError::BucketNameIpAddress);
    }
    Ok(())
}

/// What is wrong with naming `object` in `bucket`, if anything: an object
/// name is not empty and needs a bucket.
pub open spec fn object_name_fault(bucket: Option<Seq<char>>, object: Option<Seq<char>>) -> Option<
    ValueError,
> {
    match object {
        Some(o) => if o.len() == 0 {
            Some(ValueError::EmptyObjectName)
        } else if bucket is None {
            Some(ValueError::MissBucketName)
        } else {
            None
        },
        None => None,
    }
}

/// What is wrong with the target of a request, if anything: first the
/// bucket's name, then the object's.
pub open spec fn target_fault(bucket: Option<Seq<char>>, object: Option<Seq<char>>) -> Option<
    ValueError,
> {
    if bucket is Some && bucket_name_fault(bucket->0) is Some {
        bucket_name_fault(bucket->0)
    } else {
        object_name_fault(bucket, object)
    }
}

/// Checks the target of a request: the bucket's name, where there is one,
/// then that an object's name is not empty and comes with a bucket.
pub fn check_target(bucket: Option<&str>, object: Option<&str>) -> (r: Result<(), ValueError>)
    ensures
        match r {
            Ok(_) => target_fault(opt_view(bucket), opt_view(object)) is None,
            Err(e) => target_fault(opt_view(bucket), opt_view(object)) == Some(e),
        },
{
    if let Some(b) = bucket {
        match check_bucket_name(b) {
            Ok(_) => {},
            Err(e) => {
                return Err(e);
            },
        }
    }
    if let Some(o) = object {
        if o.is_empty() {
            return Err(ValueError::EmptyObjectName);
        }
        if bucket.is_none() {
            return Err(ValueError::MissBucketName);
        }
    }
    Ok(())
}

/// The view of an optional string.
pub open spec fn opt_view(s: Option<&str>) -> Option<Seq<char>> {
    match s {
        Some(t) => Some(t@),
        None => None,
    }
}

} // verus!
