//! Multipart uploads: how a payload is cut into parts, how a stream of
//! chunks is gathered into parts, and the session that records the parts
//! the service has taken.
use vstd::prelude::*;
use vstd::string::*;
use bytes::Bytes;
use crate::errors::ValueError;
use crate::payload::{bytes_from_vec, bytes_of};
use crate::text::{decimal, push_decimal};

verus! {

/// Smallest size, in bytes, that the service takes for every part of an
/// upload but the last: 5 MiB.
pub const MIN_PART_SIZE: u64 = 5242880;

/// Largest size, in bytes, of an object put together from parts: 5 TiB.
pub const MAX_MULTIPART_OBJECT_SIZE: u64 = 5497558138880;

/// Length of a payload and size of the parts it is cut into.
pub struct PlanView {
    pub len: nat,
    pub part_size: nat,
}

/// Number of parts: one for a payload that fits into a part, else the
/// number of full parts and one more for what is left, even where
/// nothing is left.
pub open spec fn part_count(p: PlanView) -> nat {
    if p.len <= p.part_size {
        1
    } else {
        p.len / p.part_size + 1
    }
}

/// Where part `i` starts in the payload, counting parts from 0.
pub open spec fn part_start(p: PlanView, i: nat) -> nat {
    i * p.part_size
}

/// Where part `i` ends in the payload: the last part at the payload's
/// end, every other one a part size behind its start.
pub open spec fn part_end(p: PlanView, i: nat) -> nat {
    if i + 1 == part_count(p) {
        p.len
    } else {
        (i + 1) * p.part_size
    }
}

/// The sizes of the parts, in their order.
pub open spec fn part_sizes(p: PlanView) -> Seq<nat> {
    Seq::new(part_count(p), |i: int| (part_end(p, i as nat) - part_start(p, i as nat)) as nat)
}

/// The sum of a list of sizes.
pub open spec fn total(sizes: Seq<nat>) -> nat
    decreases sizes.len(),
{
    if sizes.len() == 0 {
        0
    } else {
        total(sizes.drop_last()) + sizes.last()
    }
}

/// A plan is one of a payload within the service's limit, cut into parts
/// of a size that is not zero.
pub open spec fn valid_plan(p: PlanView) -> bool {
    p.part_size > 0 && p.len <= MAX_MULTIPART_OBJECT_SIZE
}

/// The parts of a plan follow one another from the payload's start to
/// its end without gap or overlap; every part but the last has the part
/// size, and the last has what is left, which is never more.
pub proof fn law_parts_cover(p: PlanView)
    requires
        valid_plan(p),
    ensures
        part_start(p, 0) == 0,
        part_end(p, (part_count(p) - 1) as nat) == p.len,
        forall|i: nat| i + 1 < part_count(p) ==> #[trigger] part_end(p, i) == part_start(p, i + 1),
        forall|i: nat|
            i + 1 < part_count(p) ==> #[trigger] part_end(p, i) - part_start(p, i) == p.part_size,
        forall|i: nat| i < part_count(p) ==> part_start(p, i) <= #[trigger] part_end(p, i) <= p.len,
        p.len - part_start(p, (part_count(p) - 1) as nat) <= p.part_size,
{
    let n = part_count(p);
    let ps = p.part_size;
    assert forall|i: nat| i < n implies part_start(p, i) <= #[trigger] part_end(p, i) <= p.len by {
        lemma_part_bounds(p, i);
    }
    assert forall|i: nat| i + 1 < n implies #[trigger] part_end(p, i) - part_start(p, i)
        == ps by {
        assert((i + 1) * ps - i * ps == ps) by (nonlinear_arith);
    }
    lemma_part_bounds(p, (n - 1) as nat);
    if p.len > ps {
        let q = p.len / ps;
        assert(p.len == ps * q + p.len % ps) by {
            vstd::arithmetic::div_mod::lemma_fundamental_div_mod(p.len as int, ps as int);
        }
        assert(q * ps == ps * q) by (nonlinear_arith);
    } else {
        assert(0 * ps == 0) by (nonlinear_arith);
    }
}

/// Part `i` lies within the payload.
pub proof fn lemma_part_bounds(p: PlanView, i: nat)
    requires
        valid_plan(p),
        i < part_count(p),
    ensures
        part_start(p, i) <= part_end(p, i) <= p.len,
{
    let ps = p.part_size;
    if p.len <= ps {
        assert(i == 0);
        assert(0 * ps == 0) by (nonlinear_arith);
    } else {
        let q = p.len / ps;
        assert(p.len == ps * q + p.len % ps) by {
            vstd::arithmetic::div_mod::lemma_fundamental_div_mod(p.len as int, ps as int);
        }
        assert(i <= q);
        assert(i * ps <= q * ps) by (nonlinear_arith)
            requires
                i <= q,
        ;
        assert(q * ps == ps * q) by (nonlinear_arith);
        if i + 1 < part_count(p) {
            assert((i + 1) * ps <= q * ps) by (nonlinear_arith)
                requires
                    i + 1 <= q,
            ;
            assert(i * ps <= (i + 1) * ps) by (nonlinear_arith);
        }
    }
}

/// The sizes of the first `k` parts add up to where part `k` starts.
pub proof fn lemma_sizes_prefix(p: PlanView, k: nat)
    requires
        valid_plan(p),
        k < part_count(p),
    ensures
        total(part_sizes(p).take(k as int)) == part_start(p, k),
    decreases k,
{
    let ps = p.part_size;
    if k == 0 {
        assert(0 * ps == 0) by (nonlinear_arith);
    } else {
        let j = (k - 1) as nat;
        lemma_sizes_prefix(p, j);
        let s = part_sizes(p).take(k as int);
        assert(s.drop_last() =~= part_sizes(p).take(j as int));
        assert(s.last() == part_sizes(p)[j as int]);
        assert((j + 1) * ps - j * ps == ps) by (nonlinear_arith);
        assert(j * ps + ps == k * ps) by (nonlinear_arith)
            requires
                j + 1 == k,
        ;
    }
}

/// The sizes of the parts add up to the length of the payload.
pub proof fn law_sizes_total(p: PlanView)
    requires
        valid_plan(p),
    ensures
        total(part_sizes(p)) == p.len,
{
    let n = part_count(p);
    let last = (n - 1) as nat;
    lemma_sizes_prefix(p, last);
    lemma_part_bounds(p, last);
    let s = part_sizes(p);
    assert(s.drop_last() =~= s.take(last as int));
    assert(s.last() == (part_end(p, last) - part_start(p, last)) as nat);
}

/// How a payload of known length is cut into parts.
#[derive(Clone, Copy, Debug, PartialEq, Eq)]
pub struct UploadPlan {
    len: u64,
    part_size: u64,
}

impl View for UploadPlan {
    type V = PlanView;

    closed spec fn view(&self) -> PlanView {
        PlanView { len: self.len as nat, part_size: self.part_size as nat }
    }
}

impl UploadPlan {
    #[verifier::type_invariant]
    closed spec fn inv(&self) -> bool {
        valid_plan(self@)
    }

    /// The plan for a payload of `len` bytes in parts of `part_size`
    /// bytes. A part size of zero is refused, and so is a payload over
    /// [`MAX_MULTIPART_OBJECT_SIZE`].
    pub fn new(len: u64, part_size: u64) -> (r: Result<UploadPlan, ValueError>)
        ensures
            match r {
                Ok(p) => p@ == (PlanView { len: len as nat, part_size: part_size as nat })
                    && valid_plan(p@),
                Err(e) => e == if part_size == 0 {
                    ValueError::InvalidPartSize
                } else {
                    ValueError::ObjectTooLarge
                } && !valid_plan((PlanView { len: len as nat, part_size: part_size as nat })),
            },
    {
        if part_size == 0 {
            return Err(ValueError::InvalidPartSize);
        }
        if len > MAX_MULTIPART_OBJECT_SIZE {
            return Err(ValueError::ObjectTooLarge);
        }
        Ok(UploadPlan { len, part_size })
    }

    /// Length of the payload.
    pub fn len(&self) -> (n: u64)
        ensures
            n == self@.len,
            valid_plan(self@),
    {
        proof {
            use_type_invariant(self);
        }
        self.len
    }

    /// Size of every part but the last.
    pub fn part_size(&self) -> (n: u64)
        ensures
            n == self@.part_size,
            valid_plan(self@),
    {
        proof {
            use_type_invariant(self);
        }
        self.part_size
    }

    /// Number of parts.
    pub fn part_count(&self) -> (n: u64)
        ensures
            n == part_count(self@),
            valid_plan(self@),
    {
        proof {
            use_type_invariant(self);
        }
        if self.len <= self.part_size {
            1
        } else {
            self.len / self.part_size + 1
        }
    }

    /// Start and end of part `i` in the payload, counting parts from 0;
    /// nothing where the plan has no such part.
    pub fn part_range(&self, i: u64) -> (r: Option<(u64, u64)>)
        ensures
            valid_plan(self@),
            match r {
                Some((start, end)) => i < part_count(self@) && start == part_start(self@, i as nat)
                    && end == part_end(self@, i as nat) && start <= end <= self@.len,
                None => i >= part_count(self@),
            },
    {
        let n = self.part_count();
        if i >= n {
            return None;
        }
        proof {
            lemma_part_bounds(self@, i as nat);
            if i + 1 < n {
                lemma_part_bounds(self@, (i + 1) as nat);
            }
            assert(i * self.part_size == part_start(self@, i as nat));
        }
        let start = i * self.part_size;
        let end = if i + 1 == n {
            self.len
        } else {
            proof {
                assert((i + 1) * self.part_size == part_end(self@, i as nat));
            }
            (i + 1) * self.part_size
        };
        Some((start, end))
    }

    /// The sizes of the parts, in their order.
    pub fn part_sizes(&self) -> (v: Vec<u64>)
        ensures
            valid_plan(self@),
            v@.len() == part_count(self@),
            forall|i: int| 0 <= i < v@.len() ==> (#[trigger] v@[i]) as nat == part_sizes(self@)[i],
    {
        let n = self.part_count();
        let mut v: Vec<u64> = Vec::new();
        let mut i: u64 = 0;
        while i < n
            invariant
                i <= n,
                n == part_count(self@),
                valid_plan(self@),
                v@.len() == i,
                forall|j: int| 0 <= j < i ==> (#[trigger] v@[j]) as nat == part_sizes(self@)[j],
            decreases n - i,
        {
            match self.part_range(i) {
                Some((start, end)) => {
                    v.push(end - start);
                },
                None => {},
            }
            i += 1;
        }
        v
    }
}

/// What feeding one chunk to a buffer gives: the part that leaves, if the
/// buffer has reached the part size, and what stays in the buffer.
pub open spec fn feed(rest: Seq<u8>, chunk: Seq<u8>, part_size: nat) -> (Option<Seq<u8>>, Seq<u8>) {
    let all = rest + chunk;
    if all.len() >= part_size {
        (Some(all), Seq::empty())
    } else {
        (None, all)
    }
}

/// What feeding a list of chunks to an empty buffer gives: the parts that
/// have left, in their order, and what is in the buffer.
pub open spec fn fed(chunks: Seq<Seq<u8>>, part_size: nat) -> (Seq<Seq<u8>>, Seq<u8>)
    decreases chunks.len(),
{
    if chunks.len() == 0 {
        (Seq::empty(), Seq::empty())
    } else {
        let before = fed(chunks.drop_last(), part_size);
        let now = feed(before.1, chunks.last(), part_size);
        (
            match now.0 {
                Some(part) => before.0.push(part),
                None => before.0,
            },
            now.1,
        )
    }
}

/// The parts that a stream of chunks is uploaded in: those that leave
/// the buffer while the stream runs, and at its end what is left in the
/// buffer, if anything.
pub open spec fn stream_parts(chunks: Seq<Seq<u8>>, part_size: nat) -> Seq<Seq<u8>> {
    let f = fed(chunks, part_size);
    if f.1.len() > 0 {
        f.0.push(f.1)
    } else {
        f.0
    }
}

/// While a stream runs, the parts that have left and the buffer together
/// hold what came in, in order; every part that has left has at least the
/// part size; and the buffer holds less than that.
pub proof fn lemma_fed(chunks: Seq<Seq<u8>>, part_size: nat)
    requires
        part_size > 0,
    ensures
        fed(chunks, part_size).0.flatten() + fed(chunks, part_size).1 == chunks.flatten(),
        forall|i: int|
            0 <= i < fed(chunks, part_size).0.len() ==> (#[trigger] fed(chunks, part_size).0[i]).len()
                >= part_size,
        fed(chunks, part_size).1.len() < part_size,
    decreases chunks.len(),
{
    if chunks.len() == 0 {
        assert(Seq::<Seq<u8>>::empty().flatten() =~= Seq::<u8>::empty());
        assert(chunks =~= Seq::<Seq<u8>>::empty());
    } else {
        let head = chunks.drop_last();
        lemma_fed(head, part_size);
        let before = fed(head, part_size);
        let now = feed(before.1, chunks.last(), part_size);
        assert(chunks =~= head.push(chunks.last()));
        head.lemma_flatten_push(chunks.last());
        if now.0 is Some {
            before.0.lemma_flatten_push(now.0->0);
            assert(before.0.push(now.0->0).flatten() + now.1 =~= before.0.flatten() + before.1
                + chunks.last());
        } else {
            assert(before.0.flatten() + now.1 =~= before.0.flatten() + before.1 + chunks.last());
        }
    }
}

/// The parts of a stream hold, in order, what the stream held; none is
/// empty; every part but the last has at least the part size; where no
/// chunk reaches the part size, no part reaches twice the part size; and
/// what is flushed at the end of the stream is less than a part.
pub proof fn law_stream_parts(chunks: Seq<Seq<u8>>, part_size: nat)
    requires
        part_size > 0,
    ensures
        stream_parts(chunks, part_size).flatten() == chunks.flatten(),
        forall|i: int|
            0 <= i < stream_parts(chunks, part_size).len() ==> (#[trigger] stream_parts(
                chunks,
                part_size,
            )[i]).len() > 0,
        forall|i: int|
            0 <= i < stream_parts(chunks, part_size).len() - 1 ==> (#[trigger] stream_parts(
                chunks,
                part_size,
            )[i]).len() >= part_size,
        (forall|j: int| 0 <= j < chunks.len() ==> (#[trigger] chunks[j]).len() < part_size)
            ==> forall|i: int|
            0 <= i < stream_parts(chunks, part_size).len() ==> (#[trigger] stream_parts(
                chunks,
                part_size,
            )[i]).len() < 2 * part_size,
        fed(chunks, part_size).1.len() < part_size,
{
    lemma_fed(chunks, part_size);
    let f = fed(chunks, part_size);
    if f.1.len() > 0 {
        f.0.lemma_flatten_push(f.1);
    } else {
        assert(f.0.flatten() + f.1 =~= f.0.flatten());
    }
    if forall|j: int| 0 <= j < chunks.len() ==> (#[trigger] chunks[j]).len() < part_size {
        lemma_fed_small(chunks, part_size);
    }
}

/// Where no chunk reaches the part size, no part that leaves the buffer
/// reaches twice the part size.
pub proof fn lemma_fed_small(chunks: Seq<Seq<u8>>, part_size: nat)
    requires
        part_size > 0,
        forall|j: int| 0 <= j < chunks.len() ==> (#[trigger] chunks[j]).len() < part_size,
    ensures
        forall|i: int|
            0 <= i < fed(chunks, part_size).0.len() ==> (#[trigger] fed(chunks, part_size).0[i]).len()
                < 2 * part_size,
    decreases chunks.len(),
{
    if chunks.len() > 0 {
        let head = chunks.drop_last();
        assert forall|j: int| 0 <= j < head.len() implies (#[trigger] head[j]).len()
            < part_size by {
            assert(head[j] == chunks[j]);
        }
        lemma_fed_small(head, part_size);
        lemma_fed(head, part_size);
        assert(chunks.last() == chunks[chunks.len() - 1]);
    }
}

/// Gathers the chunks of a stream into parts of at least a part size.
pub struct PartBuffer {
    held: Vec<u8>,
    part_size: usize,
}

/// What a [`PartBuffer`] holds.
pub struct PartBufferView {
    pub held: Seq<u8>,
    pub part_size: nat,
}

impl View for PartBuffer {
    type V = PartBufferView;

    closed spec fn view(&self) -> PartBufferView {
        PartBufferView { held: self.held@, part_size: self.part_size as nat }
    }
}

impl PartBuffer {
    #[verifier::type_invariant]
    closed spec fn inv(&self) -> bool {
        self.part_size > 0 && self.held@.len() < self.part_size
    }

    /// What every buffer satisfies: it holds less than a part.
    pub open spec fn wf(&self) -> bool {
        self@.part_size > 0 && self@.held.len() < self@.part_size
    }

    /// An empty buffer for parts of at least `part_size` bytes; a part
    /// size of zero is refused.
    pub fn new(part_size: usize) -> (r: Result<PartBuffer, ValueError>)
        ensures
            match r {
                Ok(b) => part_size > 0 && b@ == (PartBufferView {
                    held: Seq::empty(),
                    part_size: part_size as nat,
                }) && b.wf(),
                Err(e) => part_size == 0 && e == ValueError::InvalidPartSize,
            },
    {
        if part_size == 0 {
            return Err(ValueError::InvalidPartSize);
        }
        Ok(PartBuffer { held: Vec::new(), part_size })
    }

    /// Number of bytes held.
    pub fn held_len(&self) -> (n: usize)
        ensures
            n == self@.held.len(),
            self.wf(),
    {
        proof {
            use_type_invariant(self);
        }
        self.held.len()
    }

    /// Takes one chunk of the stream. Where the bytes held and the chunk
    /// together reach the part size, they leave as one part, and the
    /// buffer is empty again.
    pub fn push(&mut self, chunk: &[u8]) -> (part: Option<Bytes>)
        ensures
            final(self).wf(),
            final(self)@.part_size == old(self)@.part_size,
            final(self)@.held == feed(old(self)@.held, chunk@, old(self)@.part_size).1,
            match part {
                Some(p) => feed(old(self)@.held, chunk@, old(self)@.part_size).0 == Some(
                    bytes_of(p),
                ),
                None => feed(old(self)@.held, chunk@, old(self)@.part_size).0 is None,
            },
    {
        proof {
            use_type_invariant(&*self);
        }
        let mut all: Vec<u8> = Vec::new();
        core::mem::swap(&mut all, &mut self.held);
        all.extend_from_slice(chunk);
        if all.len() >= self.part_size {
            Some(bytes_from_vec(all))
        } else {
            core::mem::swap(&mut all, &mut self.held);
            None
        }
    }

    /// Ends the stream: what is held leaves as the last part, if anything
    /// is held.
    pub fn finish(self) -> (part: Option<Bytes>)
        ensures
            self.wf(),
            match part {
                Some(p) => self@.held.len() > 0 && bytes_of(p) == self@.held,
                None => self@.held.len() == 0,
            },
    {
        proof {
            use_type_invariant(&self);
        }
        if self.held.len() > 0 {
            Some(bytes_from_vec(self.held))
        } else {
            None
        }
    }
}

/// One part that the service has taken.
#[derive(Clone, Debug, PartialEq, Eq)]
pub struct Part {
    /// Number of the part, counting from 1.
    pub part_number: u64,
    /// The tag that the service gave the part.
    pub etag: String,
    /// Size of the part in bytes.
    pub size: u64,
}

/// A [`Part`] as plain values.
pub struct PartView {
    pub part_number: nat,
    pub etag: Seq<char>,
    pub size: nat,
}

impl View for Part {
    type V = PartView;

    open spec fn view(&self) -> PartView {
        PartView { part_number: self.part_number as nat, etag: self.etag@, size: self.size as nat }
    }
}

/// Where a session stands.
#[derive(Clone, Copy, Debug, PartialEq, Eq, Structural)]
pub enum SessionState {
    /// The service has given an upload id, and no part has been taken.
    Initiated,
    /// At least one part has been taken.
    Uploading,
    /// The service has put the parts together.
    Completed,
    /// The upload was given up.
    Aborted,
}

/// What a [`MultipartSession`] holds.
pub struct SessionView {
    pub bucket: Seq<char>,
    pub key: Seq<char>,
    pub upload_id: Seq<char>,
    pub part_size: nat,
    pub parts: Seq<PartView>,
    pub state: SessionState,
}

/// The sizes of a list of parts.
pub open spec fn sizes_of(parts: Seq<PartView>) -> Seq<nat> {
    Seq::new(parts.len(), |i: int| parts[i].size)
}

/// The rules of a session: the part size is not zero; parts are numbered
/// from 1 without a gap;
/// every part but the last has at least the part size; the parts
/// together are within the service's limit; and a session has parts
/// exactly when it has left the state `Initiated`, unless it was given
/// up before any part was taken or completed without one.
pub open spec fn valid_session(s: SessionView) -> bool {
    &&& s.part_size > 0
    &&& forall|i: int| 0 <= i < s.parts.len() ==> (#[trigger] s.parts[i]).part_number == i + 1
    &&& forall|i: int| 0 <= i < s.parts.len() - 1 ==> (#[trigger] s.parts[i]).size >= s.part_size
    &&& total(sizes_of(s.parts)) <= MAX_MULTIPART_OBJECT_SIZE
    &&& s.state == SessionState::Initiated ==> s.parts.len() == 0
    &&& s.state == SessionState::Uploading ==> s.parts.len() > 0
}

/// Whether a session still takes parts.
pub open spec fn is_open(s: SessionView) -> bool {
    s.state == SessionState::Initiated || s.state == SessionState::Uploading
}

/// Why a part of `size` bytes cannot be added to the session, if it
/// cannot: the session is closed; the part before it is smaller than the
/// part size, which only the last part may be; or the object would pass
/// the service's limit.
pub open spec fn part_fault(s: SessionView, size: nat) -> Option<ValueError> {
    if !is_open(s) {
        Some(ValueError::SessionClosed)
    } else if s.parts.len() > 0 && s.parts.last().size < s.part_size {
        Some(ValueError::UndersizedPart)
    } else if total(sizes_of(s.parts)) + size > MAX_MULTIPART_OBJECT_SIZE {
        Some(ValueError::ObjectTooLarge)
    } else {
        None
    }
}

/// The session with one more part, which gets the next number.
pub open spec fn with_part(s: SessionView, etag: Seq<char>, size: nat) -> SessionView {
    SessionView {
        parts: s.parts.push(PartView { part_number: s.parts.len() + 1, etag, size }),
        state: SessionState::Uploading,
        ..s
    }
}

/// One entry of the completion body.
pub open spec fn part_xml(p: PartView) -> Seq<char> {
    "<Part><PartNumber>"@ + decimal(p.part_number) + "</PartNumber><ETag>"@ + p.etag
        + "</ETag></Part>"@
}

/// The entries of the completion body, in the order of the parts.
pub open spec fn parts_xml(parts: Seq<PartView>) -> Seq<char>
    decreases parts.len(),
{
    if parts.len() == 0 {
        Seq::empty()
    } else {
        parts_xml(parts.drop_last()) + part_xml(parts.last())
    }
}

/// The body of the request that completes an upload: the parts in
/// ascending order of their numbers.
pub open spec fn completion_xml(parts: Seq<PartView>) -> Seq<char> {
    "<CompleteMultipartUpload>"@ + parts_xml(parts) + "</CompleteMultipartUpload>"@
}

/// One multipart upload: the id that the service gave it, and the parts
/// that the service has taken so far.
pub struct MultipartSession {
    bucket: String,
    key: String,
    upload_id: String,
    part_size: u64,
    parts: Vec<Part>,
    total: u64,
    state: SessionState,
}

impl View for MultipartSession {
    type V = SessionView;

    closed spec fn view(&self) -> SessionView {
        SessionView {
            bucket: self.bucket@,
            key: self.key@,
            upload_id: self.upload_id@,
            part_size: self.part_size as nat,
            parts: Seq::new(self.parts@.len(), |i: int| self.parts@[i]@),
            state: self.state,
        }
    }
}

impl MultipartSession {
    #[verifier::type_invariant]
    closed spec fn inv(&self) -> bool {
        valid_session(self@) && self.total == total(sizes_of(self@.parts))
    }

    /// The session of an upload that the service has just initiated under
    /// `upload_id`, for parts of at least `part_size` bytes; a part size
    /// of zero is refused.
    pub fn new(bucket: &str, key: &str, upload_id: &str, part_size: u64) -> (r: Result<
        Self,
        ValueError,
    >)
        ensures
            match r {
                Ok(s) => part_size > 0 && s@ == (SessionView {
                    bucket: bucket@,
                    key: key@,
                    upload_id: upload_id@,
                    part_size: part_size as nat,
                    parts: Seq::empty(),
                    state: SessionState::Initiated,
                }) && valid_session(s@),
                Err(e) => part_size == 0 && e == ValueError::InvalidPartSize,
            },
    {
        if part_size == 0 {
            return Err(ValueError::InvalidPartSize);
        }
        let s = MultipartSession {
            bucket: String::from_str(bucket),
            key: String::from_str(key),
            upload_id: String::from_str(upload_id),
            part_size,
            parts: Vec::new(),
            total: 0,
            state: SessionState::Initiated,
        };
        assert(s@.parts =~= Seq::empty());
        Ok(s)
    }

    pub fn bucket(&self) -> (r: &str)
        ensures
            r@ == self@.bucket,
    {
        self.bucket.as_str()
    }

    pub fn key(&self) -> (r: &str)
        ensures
            r@ == self@.key,
    {
        self.key.as_str()
    }

    pub fn upload_id(&self) -> (r: &str)
        ensures
            r@ == self@.upload_id,
    {
        self.upload_id.as_str()
    }

    pub fn state(&self) -> (r: SessionState)
        ensures
            r == self@.state,
            valid_session(self@),
    {
        proof {
            use_type_invariant(self);
        }
        self.state
    }

    /// Number of parts taken so far.
    pub fn part_count(&self) -> (n: usize)
        ensures
            n == self@.parts.len(),
            valid_session(self@),
    {
        proof {
            use_type_invariant(self);
        }
        self.parts.len()
    }

    /// The part at place `i`, counting from 0.
    pub fn part(&self, i: usize) -> (p: Option<&Part>)
        ensures
            match p {
                Some(part) => i < self@.parts.len() && part@ == self@.parts[i as int],
                None => i >= self@.parts.len(),
            },
    {
        if i < self.parts.len() {
            Some(&self.parts[i])
        } else {
            None
        }
    }

    /// Bytes taken so far.
    pub fn total_size(&self) -> (n: u64)
        ensures
            n == total(sizes_of(self@.parts)),
            valid_session(self@),
    {
        proof {
            use_type_invariant(self);
        }
        self.total
    }

    /// Whether a part of `size` bytes can be added.
    pub fn check_part(&self, size: u64) -> (r: Result<(), ValueError>)
        ensures
            valid_session(self@),
            match r {
                Ok(_) => part_fault(self@, size as nat) is None,
                Err(e) => part_fault(self@, size as nat) == Some(e),
            },
    {
        proof {
            use_type_invariant(self);
        }
        match self.state {
            SessionState::Completed | SessionState::Aborted => {
                return Err(ValueError::SessionClosed);
            },
            _ => {},
        }
        let n = self.parts.len();
        if n > 0 {
            assert(self@.parts.last() == self.parts@[n - 1]@);
            if self.parts[n - 1].size < self.part_size {
                return Err(ValueError::UndersizedPart);
            }
        }
        if size > MAX_MULTIPART_OBJECT_SIZE - self.total {
            return Err(ValueError::ObjectTooLarge);
        }
        Ok(())
    }

    /// Records a part that the service has taken; the part gets the next
    /// number. A session that cannot take the part is left as it was.
    pub fn add_part(&mut self, etag: String, size: u64) -> (r: Result<(), ValueError>)
        ensures
            valid_session(final(self)@),
            match r {
                Ok(_) => part_fault(old(self)@, size as nat) is None && final(self)@ == with_part(
                    old(self)@,
                    etag@,
                    size as nat,
                ),
                Err(e) => part_fault(old(self)@, size as nat) == Some(e) && final(self)@ == old(
                    self,
                )@,
            },
    {
        proof {
            use_type_invariant(&*self);
        }
        match self.check_part(size) {
            Ok(_) => {},
            Err(e) => {
                return Err(e);
            },
        }
        let ghost before = self@;
        let mut taken = MultipartSession {
            bucket: String::new(),
            key: String::new(),
            upload_id: String::new(),
            part_size: 1,
            parts: Vec::new(),
            total: 0,
            state: SessionState::Initiated,
        };
        core::mem::swap(self, &mut taken);
        let mut parts = taken.parts;
        let n = parts.len();
        proof {
            assert(sizes_of(before.parts).len() == n);
            lemma_count_within_total(sizes_of(before.parts), before.part_size);
        }
        parts.push(Part { part_number: n as u64 + 1, etag, size });
        let ghost after = Seq::new(parts@.len(), |i: int| parts@[i]@);
        proof {
            assert(after =~= with_part(before, etag@, size as nat).parts);
            assert(sizes_of(after).drop_last() =~= sizes_of(before.parts));
        }
        *self = MultipartSession {
            bucket: taken.bucket,
            key: taken.key,
            upload_id: taken.upload_id,
            part_size: taken.part_size,
            parts,
            total: taken.total + size,
            state: SessionState::Uploading,
        };
        proof {
            assert(self@.parts =~= after);
        }
        Ok(())
    }

    /// Marks the upload as completed by the service. A session that was
    /// completed or given up before is left as it was.
    pub fn mark_completed(&mut self) -> (r: Result<(), ValueError>)
        ensures
            valid_session(final(self)@),
            match r {
                Ok(_) => is_open(old(self)@) && final(self)@ == (SessionView {
                    state: SessionState::Completed,
                    ..old(self)@
                }),
                Err(e) => !is_open(old(self)@) && e == ValueError::SessionClosed && final(self)@
                    == old(self)@,
            },
    {
        proof {
            use_type_invariant(&*self);
        }
        match self.state {
            SessionState::Completed | SessionState::Aborted => Err(ValueError::SessionClosed),
            _ => {
                self.state = SessionState::Completed;
                Ok(())
            },
        }
    }

    /// Marks the upload as given up. Giving up twice is no fault; a
    /// completed upload cannot be given up and is left as it was.
    pub fn mark_aborted(&mut self) -> (r: Result<(), ValueError>)
        ensures
            valid_session(final(self)@),
            match r {
                Ok(_) => old(self)@.state != SessionState::Completed && final(self)@ == (SessionView {
                    state: SessionState::Aborted,
                    ..old(self)@
                }),
                Err(e) => old(self)@.state == SessionState::Completed && e
                    == ValueError::SessionClosed && final(self)@ == old(self)@,
            },
    {
        proof {
            use_type_invariant(&*self);
        }
        match self.state {
            SessionState::Completed => Err(ValueError::SessionClosed),
            _ => {
                self.state = SessionState::Aborted;
                Ok(())
            },
        }
    }

    /// The body of the request that completes the upload: one entry a
    /// part, in ascending order of the part numbers.
    pub fn completion_body(&self) -> (s: String)
        ensures
            s@ == completion_xml(self@.parts),
    {
        let mut s = String::from_str("<CompleteMultipartUpload>");
        let ghost head = s@;
        let mut i: usize = 0;
        while i < self.parts.len()
            invariant
                i <= self.parts@.len(),
                s@ == head + parts_xml(self@.parts.take(i as int)),
            decreases self.parts@.len() - i,
        {
            let ghost before = s@;
            let p = &self.parts[i];
            s.append("<Part><PartNumber>");
            push_decimal(&mut s, p.part_number);
            s.append("</PartNumber><ETag>");
            s.append(p.etag.as_str());
            s.append("</ETag></Part>");
            proof {
                let t = self@.parts.take(i as int + 1);
                assert(t.drop_last() =~= self@.parts.take(i as int));
                assert(t.last() == p@);
                assert(s@ =~= before + part_xml(p@));
            }
            i += 1;
        }
        assert(self@.parts.take(self.parts@.len() as int) == self@.parts);
        s.append("</CompleteMultipartUpload>");
        s
    }
}

/// A session that can take a part keeps the rules with it.
pub proof fn lemma_with_part_valid(s: SessionView, etag: Seq<char>, size: nat)
    requires
        valid_session(s),
        part_fault(s, size) is None,
    ensures
        valid_session(with_part(s, etag, size)),
        is_open(with_part(s, etag, size)),
{
    let t = with_part(s, etag, size);
    assert(sizes_of(t.parts).drop_last() =~= sizes_of(s.parts));
    assert forall|i: int| 0 <= i < t.parts.len() - 1 implies (#[trigger] t.parts[i]).size
        >= t.part_size by {
        if i < s.parts.len() - 1 {
            assert(t.parts[i] == s.parts[i]);
        } else {
            assert(t.parts[i] == s.parts.last());
        }
    }
    assert forall|i: int| 0 <= i < t.parts.len() implies (#[trigger] t.parts[i]).part_number == i
        + 1 by {
        if i < s.parts.len() {
            assert(t.parts[i] == s.parts[i]);
        }
    }
}

/// Sizes of which every one but the last is at least `least`, which is
/// not zero, are at most one more in number than they add up to.
pub proof fn lemma_count_within_total(sizes: Seq<nat>, least: nat)
    requires
        least > 0,
        forall|i: int| 0 <= i < sizes.len() - 1 ==> #[trigger] sizes[i] >= least,
    ensures
        sizes.len() <= total(sizes) + 1,
{
    if sizes.len() > 0 {
        let head = sizes.drop_last();
        assert forall|i: int| 0 <= i < head.len() implies #[trigger] head[i] >= least by {
            assert(head[i] == sizes[i]);
        }
        lemma_total_at_least(head, least);
    }
}

/// Sizes of which every one is at least `least` add up to at least their
/// number.
pub proof fn lemma_total_at_least(sizes: Seq<nat>, least: nat)
    requires
        least > 0,
        forall|i: int| 0 <= i < sizes.len() ==> #[trigger] sizes[i] >= least,
    ensures
        sizes.len() <= total(sizes),
    decreases sizes.len(),
{
    if sizes.len() > 0 {
        let head = sizes.drop_last();
        assert forall|i: int| 0 <= i < head.len() implies #[trigger] head[i] >= least by {
            assert(head[i] == sizes[i]);
        }
        lemma_total_at_least(head, least);
        assert(sizes.last() == sizes[sizes.len() - 1]);
    }
}

} // verus!
