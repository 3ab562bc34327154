//! The course of one multipart upload, as a function from what has
//! happened to what is to be done next. The caller performs each action
//! against the service and reports how it ended.
use vstd::prelude::*;
use vstd::string::*;
use crate::errors::{Error, ValueError};
use crate::multipart::{
    is_open, part_fault, valid_session, with_part, MultipartSession, SessionState, SessionView,
};

verus! {

/// What an upload is waiting for.
#[derive(Clone, Copy, Debug, PartialEq, Eq, Structural)]
pub enum Phase {
    /// For the service to initiate the upload.
    Initiating,
    /// For the source to give the next part, or to end.
    Filling,
    /// For the service to take the part in flight.
    Sending,
    /// For the service to put the parts together.
    Completing,
    /// For the service to release the parts, after a failure.
    Aborting,
    /// For nothing: the upload has ended.
    Done,
}

/// What the caller is to do next.
#[derive(Debug, PartialEq, Eq)]
pub enum Action {
    /// Ask the service for an upload id.
    Initiate,
    /// Get the next part from the source.
    NextPart,
    /// Send the part just got under this number.
    UploadPart { part_number: u64 },
    /// Ask the service to put the parts of the session together.
    Complete,
    /// Ask the service to release the parts of the session.
    Abort,
    /// Return this to the caller's caller; the upload has ended.
    Finish(Result<(), Error>),
}

/// What has happened since the last action.
#[derive(Clone, Debug, PartialEq, Eq)]
pub enum Event {
    /// The service initiated the upload under this id.
    Initiated { upload_id: String },
    /// The service did not initiate the upload.
    InitiateFailed(Error),
    /// The source gave a part of this size.
    PartReady { size: u64 },
    /// The source has no more parts.
    SourceEnded,
    /// The source failed.
    SourceFailed(Error),
    /// The service took the part in flight and gave it this tag.
    PartUploaded { etag: String },
    /// The service did not take the part in flight.
    PartFailed(Error),
    /// The service put the parts together.
    Completed,
    /// The service did not put the parts together.
    CompleteFailed(Error),
    /// The service released the parts.
    Aborted,
    /// The service did not release the parts.
    AbortFailed(Error),
}

/// What an [`Upload`] holds.
pub struct UploadView {
    pub bucket: Seq<char>,
    pub key: Seq<char>,
    pub part_size: nat,
    pub phase: Phase,
    /// Size of the part in flight, while one is.
    pub in_flight: nat,
    /// The failure that made the upload give up, once one has.
    pub cause: Option<Error>,
    pub session: Option<SessionView>,
}

/// The upload `u` in the phase `Aborting` because of `cause`.
pub open spec fn giving_up(u: UploadView, cause: Error) -> UploadView {
    UploadView { phase: Phase::Aborting, cause: Some(cause), ..u }
}

/// The session of `u` in another state.
pub open spec fn session_in(u: UploadView, state: SessionState) -> Option<SessionView> {
    match u.session {
        Some(s) => Some(SessionView { state, ..s }),
        None => None,
    }
}

/// The step that the event `e` makes the upload `u` take: how the upload
/// stands after it, and what is to be done next. An event that does not
/// answer what the upload is waiting for makes no step.
///
/// A failure to initiate ends the upload with that failure. Any later
/// failure, of the source, of a part, of the completion, or a part that
/// the session cannot take, makes the upload give up: the next action is
/// `Abort`, and the upload then ends with the failure that made it give
/// up, or with the failure of the abort, where that fails too.
pub open spec fn step_of(u: UploadView, e: Event) -> Option<(UploadView, Action)> {
    match (u.phase, e) {
        (Phase::Initiating, Event::Initiated { upload_id }) => Some(
            (
                UploadView {
                    phase: Phase::Filling,
                    session: Some(
                        SessionView {
                            bucket: u.bucket,
                            key: u.key,
                            upload_id: upload_id@,
                            part_size: u.part_size,
                            parts: Seq::empty(),
                            state: SessionState::Initiated,
                        },
                    ),
                    ..u
                },
                Action::NextPart,
            ),
        ),
        (Phase::Initiating, Event::InitiateFailed(err)) => Some(
            (UploadView { phase: Phase::Done, ..u }, Action::Finish(Err(err))),
        ),
        (Phase::Filling, Event::PartReady { size }) => match part_fault(u.session->0, size as nat) {
            Some(fault) => Some((giving_up(u, Error::ValueError(fault)), Action::Abort)),
            None => Some(
                (
                    UploadView { phase: Phase::Sending, in_flight: size as nat, ..u },
                    Action::UploadPart { part_number: (u.session->0.parts.len() + 1) as u64 },
                ),
            ),
        },
        (Phase::Filling, Event::SourceEnded) => Some(
            (UploadView { phase: Phase::Completing, ..u }, Action::Complete),
        ),
        (Phase::Filling, Event::SourceFailed(err)) => Some((giving_up(u, err), Action::Abort)),
        (Phase::Sending, Event::PartUploaded { etag }) => Some(
            (
                UploadView {
                    phase: Phase::Filling,
                    session: Some(with_part(u.session->0, etag@, u.in_flight)),
                    ..u
                },
                Action::NextPart,
            ),
        ),
        (Phase::Sending, Event::PartFailed(err)) => Some((giving_up(u, err), Action::Abort)),
        (Phase::Completing, Event::Completed) => Some(
            (
                UploadView { phase: Phase::Done, session: session_in(u, SessionState::Completed), ..u },
                Action::Finish(Ok(())),
            ),
        ),
        (Phase::Completing, Event::CompleteFailed(err)) => Some((giving_up(u, err), Action::Abort)),
        (Phase::Aborting, Event::Aborted) => Some(
            (
                UploadView {
                    phase: Phase::Done,
                    cause: None,
                    session: session_in(u, SessionState::Aborted),
                    ..u
                },
                Action::Finish(Err(u.cause->0)),
            ),
        ),
        (Phase::Aborting, Event::AbortFailed(err)) => Some(
            (UploadView { phase: Phase::Done, ..u }, Action::Finish(Err(err))),
        ),
        _ => None,
    }
}

/// The rules of an upload: it has a session from the moment the service
/// has initiated it; the session is its own and is open until the upload
/// has ended; a part in flight is one that the session can take; and an
/// upload that gives up knows why.
pub open spec fn valid_upload(u: UploadView) -> bool {
    &&& u.part_size > 0
    &&& u.phase == Phase::Initiating ==> u.session is None
    &&& (u.phase != Phase::Initiating && u.phase != Phase::Done) ==> u.session is Some
    &&& u.session is Some ==> {
        &&& valid_session(u.session->0)
        &&& u.session->0.bucket == u.bucket
        &&& u.session->0.key == u.key
        &&& u.session->0.part_size == u.part_size
        &&& u.phase != Phase::Done ==> is_open(u.session->0)
    }
    &&& u.phase == Phase::Sending ==> part_fault(u.session->0, u.in_flight) is None
    &&& u.phase == Phase::Aborting ==> u.cause is Some
}

/// How the upload `u` stands after the events `events`, and the actions
/// that they called for, in order; events that make no step are passed
/// over.
pub open spec fn run(u: UploadView, events: Seq<Event>) -> (UploadView, Seq<Action>)
    decreases events.len(),
{
    if events.len() == 0 {
        (u, Seq::empty())
    } else {
        let before = run(u, events.drop_last());
        match step_of(before.0, events.last()) {
            Some(s) => (s.0, before.1.push(s.1)),
            None => before,
        }
    }
}

/// A step keeps the rules of an upload.
pub proof fn lemma_step_valid(u: UploadView, e: Event)
    requires
        valid_upload(u),
        step_of(u, e) is Some,
    ensures
        valid_upload(step_of(u, e).unwrap().0),
{
    let v = step_of(u, e).unwrap().0;
    match (u.phase, e) {
        (Phase::Initiating, Event::Initiated { upload_id }) => {
            assert(crate::multipart::sizes_of(v.session->0.parts) =~= Seq::empty());
        },
        (Phase::Sending, Event::PartUploaded { etag }) => {
            crate::multipart::lemma_with_part_valid(u.session->0, etag@, u.in_flight);
        },
        _ => {},
    }
}

/// An upload of which a part has failed asks for an abort, and ends with
/// the failure of the part where the abort succeeds, and with the failure
/// of the abort where that fails.
pub proof fn law_part_failure(u: UploadView, failure: Error, abort_failure: Error)
    requires
        valid_upload(u),
        u.phase == Phase::Sending,
    ensures
        step_of(u, Event::PartFailed(failure)) == Some((giving_up(u, failure), Action::Abort)),
        step_of(giving_up(u, failure), Event::Aborted) is Some,
        step_of(giving_up(u, failure), Event::Aborted).unwrap().1 == Action::Finish(Err(failure)),
        step_of(giving_up(u, failure), Event::AbortFailed(abort_failure)) is Some,
        step_of(giving_up(u, failure), Event::AbortFailed(abort_failure)).unwrap().1 == Action::Finish(
            Err(abort_failure),
        ),
        giving_up(u, failure).session == u.session,
{
}

/// An upload that has given up never ends in success, whatever happens
/// after: none of the actions that follow is `Finish(Ok(()))`.
pub proof fn law_no_success_after_failure(u: UploadView, events: Seq<Event>)
    requires
        u.phase == Phase::Aborting || u.phase == Phase::Done,
    ensures
        run(u, events).0.phase == Phase::Aborting || run(u, events).0.phase == Phase::Done,
        forall|i: int|
            0 <= i < run(u, events).1.len() ==> #[trigger] run(u, events).1[i] != Action::Finish(
                Ok(()),
            ),
    decreases events.len(),
{
    if events.len() > 0 {
        law_no_success_after_failure(u, events.drop_last());
    }
}

/// One multipart upload from its initiation to its end.
pub struct Upload {
    bucket: String,
    key: String,
    part_size: u64,
    phase: Phase,
    in_flight: u64,
    cause: Option<Error>,
    session: Option<MultipartSession>,
}

impl View for Upload {
    type V = UploadView;

    closed spec fn view(&self) -> UploadView {
        UploadView {
            bucket: self.bucket@,
            key: self.key@,
            part_size: self.part_size as nat,
            phase: self.phase,
            in_flight: self.in_flight as nat,
            cause: self.cause,
            session: match self.session {
                Some(s) => Some(s@),
                None => None,
            },
        }
    }
}

impl Upload {
    #[verifier::type_invariant]
    closed spec fn inv(&self) -> bool {
        valid_upload(self@)
    }

    /// An upload of the object `key` into `bucket` in parts of at least
    /// `part_size` bytes, which is waiting to be initiated: the first
    /// action is `Initiate`. A part size of zero is refused.
    pub fn start(bucket: &str, key: &str, part_size: u64) -> (r: Result<(Upload, Action), ValueError>)
        ensures
            match r {
                Ok((u, a)) => part_size > 0 && a == Action::Initiate && valid_upload(u@) && u@ == (
                UploadView {
                    bucket: bucket@,
                    key: key@,
                    part_size: part_size as nat,
                    phase: Phase::Initiating,
                    in_flight: 0,
                    cause: None,
                    session: None,
                }),
                Err(e) => part_size == 0 && e == ValueError::InvalidPartSize,
            },
    {
        if part_size == 0 {
            return Err(ValueError::InvalidPartSize);
        }
        Ok(
            (
                Upload {
                    bucket: String::from_str(bucket),
                    key: String::from_str(key),
                    part_size,
                    phase: Phase::Initiating,
                    in_flight: 0,
                    cause: None,
                    session: None,
                },
                Action::Initiate,
            ),
        )
    }

    /// What the upload is waiting for.
    pub fn phase(&self) -> (p: Phase)
        ensures
            p == self@.phase,
            valid_upload(self@),
    {
        proof {
            use_type_invariant(self);
        }
        self.phase
    }

    /// The session, from the moment the service has initiated the upload.
    pub fn session(&self) -> (s: Option<&MultipartSession>)
        ensures
            valid_upload(self@),
            match s {
                Some(x) => self@.session == Some(x@),
                None => self@.session is None,
            },
    {
        proof {
            use_type_invariant(self);
        }
        self.session.as_ref()
    }

    /// Takes the step that `event` calls for, and says what is to be done
    /// next; see [`step_of`]. An event that does not answer what the upload
    /// is waiting for changes nothing and calls for nothing.
    pub fn step(&mut self, event: Event) -> (action: Option<Action>)
        ensures
            valid_upload(final(self)@),
            match step_of(old(self)@, event) {
                Some(s) => final(self)@ == s.0 && action == Some(s.1),
                None => final(self)@ == old(self)@ && action is None,
            },
    {
        proof {
            use_type_invariant(&*self);
        }
        let ghost before = self@;
        let mut me = Upload {
            bucket: String::new(),
            key: String::new(),
            part_size: 1,
            phase: Phase::Initiating,
            in_flight: 0,
            cause: None,
            session: None,
        };
        core::mem::swap(self, &mut me);
        let bucket = me.bucket;
        let key = me.key;
        let part_size = me.part_size;
        let mut phase = me.phase;
        let mut in_flight = me.in_flight;
        let mut cause = me.cause;
        let mut session = me.session;
        let mut action: Option<Action> = None;
        match (phase, event) {
            (Phase::Initiating, Event::Initiated { upload_id }) => {
                match MultipartSession::new(
                    bucket.as_str(),
                    key.as_str(),
                    upload_id.as_str(),
                    part_size,
                ) {
                    Ok(s) => {
                        session = Some(s);
                        phase = Phase::Filling;
                        action = Some(Action::NextPart);
                    },
                    Err(_) => {},
                }
            },
            (Phase::Initiating, Event::InitiateFailed(err)) => {
                phase = Phase::Done;
                action = Some(Action::Finish(Err(err)));
            },
            (Phase::Filling, Event::PartReady { size }) => {
                let check = match &session {
                    Some(s) => (s.check_part(size), s.part_count()),
                    None => (Ok(()), 0),
                };
                match check.0 {
                    Ok(_) => {
                        proof {
                            crate::multipart::lemma_count_within_total(
                                crate::multipart::sizes_of(before.session->0.parts),
                                before.part_size,
                            );
                        }
                        phase = Phase::Sending;
                        in_flight = size;
                        action = Some(Action::UploadPart { part_number: check.1 as u64 + 1 });
                    },
                    Err(fault) => {
                        phase = Phase::Aborting;
                        cause = Some(Error::ValueError(fault));
                        action = Some(Action::Abort);
                    },
                }
            },
            (Phase::Filling, Event::SourceEnded) => {
                phase = Phase::Completing;
                action = Some(Action::Complete);
            },
            (Phase::Filling, Event::SourceFailed(err)) => {
                phase = Phase::Aborting;
                cause = Some(err);
                action = Some(Action::Abort);
            },
            (Phase::Sending, Event::PartUploaded { etag }) => {
                match session {
                    Some(mut s) => {
                        let _ = s.add_part(etag, in_flight);
                        session = Some(s);
                    },
                    None => {},
                }
                phase = Phase::Filling;
                action = Some(Action::NextPart);
            },
            (Phase::Sending, Event::PartFailed(err)) => {
                phase = Phase::Aborting;
                cause = Some(err);
                action = Some(Action::Abort);
            },
            (Phase::Completing, Event::Completed) => {
                match session {
                    Some(mut s) => {
                        let _ = s.mark_completed();
                        session = Some(s);
                    },
                    None => {},
                }
                phase = Phase::Done;
                action = Some(Action::Finish(Ok(())));
            },
            (Phase::Completing, Event::CompleteFailed(err)) => {
                phase = Phase::Aborting;
                cause = Some(err);
                action = Some(Action::Abort);
            },
            (Phase::Aborting, Event::Aborted) => {
                match session {
                    Some(mut s) => {
                        let _ = s.mark_aborted();
                        session = Some(s);
                    },
                    None => {},
                }
                match cause {
                    Some(c) => {
                        action = Some(Action::Finish(Err(c)));
                    },
                    None => {},
                }
                cause = None;
                phase = Phase::Done;
            },
            (Phase::Aborting, Event::AbortFailed(err)) => {
                phase = Phase::Done;
                action = Some(Action::Finish(Err(err)));
            },
            _ => {},
        }
        proof {
            if step_of(before, event) is Some {
                lemma_step_valid(before, event);
            }
        }
        *self = Upload { bucket, key, part_size, phase, in_flight, cause, session };
        action
    }
}

} // verus!
