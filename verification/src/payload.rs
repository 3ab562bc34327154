//! The bodies of requests, held as `bytes::Bytes`, so that a payload is
//! cut into parts without being copied.
use vstd::prelude::*;
use bytes::Bytes;
use crate::multipart::{
    lemma_part_bounds, part_count, part_end, part_start, valid_plan, PlanView, UploadPlan,
};

verus! {

/// `bytes::Bytes`: a cheaply cloneable slice of shared memory.
#[verifier::external_type_specification]
#[verifier::external_body]
pub struct ExBytes(bytes::Bytes);

/// The bytes that a `Bytes` holds, in order.
pub uninterp spec fn bytes_of(b: Bytes) -> Seq<u8>;

/// `Bytes::new`: a `Bytes` that holds nothing.
#[verifier::external_body]
pub(crate) fn bytes_empty() -> (b: Bytes)
    ensures
        bytes_of(b).len() == 0,
{
    Bytes::new()
}

/// `Bytes::len`: the number of bytes held.
#[verifier::external_body]
pub(crate) fn bytes_len(b: &Bytes) -> (n: usize)
    ensures
        n == bytes_of(*b).len(),
{
    b.len()
}

/// `Bytes::as_ref`: the bytes held, as a slice.
#[verifier::external_body]
pub(crate) fn bytes_as_slice(b: &Bytes) -> (s: &[u8])
    ensures
        s@ == bytes_of(*b),
{
    b.as_ref()
}

/// `Bytes::slice` on the range from `start` to `end`: a `Bytes` that
/// holds the bytes of `b` from `start` up to `end`. The crate's function
/// panics on a range that does not lie within `b`.
#[verifier::external_body]
pub(crate) fn bytes_slice(b: &Bytes, start: usize, end: usize) -> (r: Bytes)
    requires
        start <= end <= bytes_of(*b).len(),
    ensures
        bytes_of(r) == bytes_of(*b).subrange(start as int, end as int),
{
    b.slice(start..end)
}

/// `Bytes::from` on a vector: a `Bytes` that holds the bytes of the
/// vector.
#[verifier::external_body]
pub(crate) fn bytes_from_vec(v: Vec<u8>) -> (b: Bytes)
    ensures
        bytes_of(b) == v@,
{
    Bytes::from(v)
}

/// The bytes of part `i` of a payload `data` under the plan `p`.
pub open spec fn part_bytes(data: Seq<u8>, p: PlanView, i: nat) -> Seq<u8> {
    data.subrange(part_start(p, i) as int, part_end(p, i) as int)
}

/// The parts of a payload under a plan, in their order.
pub open spec fn payload_parts(data: Seq<u8>, p: PlanView) -> Seq<Seq<u8>> {
    Seq::new(part_count(p), |i: int| part_bytes(data, p, i as nat))
}

/// The first `k` parts of a payload hold, in order, what the payload
/// holds before part `k`.
pub proof fn lemma_parts_prefix(data: Seq<u8>, p: PlanView, k: nat)
    requires
        valid_plan(p),
        data.len() == p.len,
        k < part_count(p),
    ensures
        payload_parts(data, p).take(k as int).flatten() == data.take(part_start(p, k) as int),
    decreases k,
{
    let parts = payload_parts(data, p);
    if k == 0 {
        assert(parts.take(0) =~= Seq::<Seq<u8>>::empty());
        assert(Seq::<Seq<u8>>::empty().flatten() =~= Seq::<u8>::empty());
        assert(0 * p.part_size == 0) by (nonlinear_arith);
        assert(data.take(0) =~= Seq::<u8>::empty());
    } else {
        let j = (k - 1) as nat;
        lemma_parts_prefix(data, p, j);
        lemma_part_bounds(p, j);
        lemma_part_bounds(p, k);
        assert(parts.take(k as int) =~= parts.take(j as int).push(parts[j as int]));
        parts.take(j as int).lemma_flatten_push(parts[j as int]);
        assert((j + 1) * p.part_size == part_end(p, j));
        assert(part_end(p, j) == part_start(p, k));
        assert(data.take(part_start(p, j) as int) + part_bytes(data, p, j) =~= data.take(
            part_start(p, k) as int,
        ));
    }
}

/// The parts of a payload hold, in order, what the payload holds, and
/// every part has the size that the plan gives it.
pub proof fn law_payload_parts(data: Seq<u8>, p: PlanView)
    requires
        valid_plan(p),
        data.len() == p.len,
    ensures
        payload_parts(data, p).flatten() == data,
        forall|i: int|
            0 <= i < part_count(p) ==> (#[trigger] payload_parts(data, p)[i]).len()
                == crate::multipart::part_sizes(p)[i],
{
    let parts = payload_parts(data, p);
    let last = (part_count(p) - 1) as nat;
    lemma_parts_prefix(data, p, last);
    lemma_part_bounds(p, last);
    assert(parts =~= parts.take(last as int).push(parts[last as int]));
    parts.take(last as int).lemma_flatten_push(parts[last as int]);
    assert(data.take(part_start(p, last) as int) + part_bytes(data, p, last) =~= data);
    assert forall|i: int| 0 <= i < part_count(p) implies (#[trigger] parts[i]).len()
        == crate::multipart::part_sizes(p)[i] by {
        lemma_part_bounds(p, i as nat);
    }
}

/// Part `i` of the payload `data` under `plan`, counting from 0: the
/// bytes from the part's start up to its end. Nothing, where the plan has
/// no such part, or is not the plan of a payload of this length.
pub fn part_of(data: &Bytes, plan: &UploadPlan, i: u64) -> (r: Option<Bytes>)
    ensures
        match r {
            Some(part) => bytes_of(*data).len() == plan@.len && i < part_count(plan@) && bytes_of(
                part,
            ) == part_bytes(bytes_of(*data), plan@, i as nat),
            None => bytes_of(*data).len() != plan@.len || i >= part_count(plan@),
        },
{
    let len = bytes_len(data);
    if len as u64 != plan.len() {
        return None;
    }
    match plan.part_range(i) {
        Some((start, end)) => Some(bytes_slice(data, start as usize, end as usize)),
        None => None,
    }
}

} // verus!
