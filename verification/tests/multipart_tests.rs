use bytes::Bytes;
use minio_rsc::errors::{Error, ValueError};
use minio_rsc::multipart::{
    MultipartSession, PartBuffer, SessionState, UploadPlan, MAX_MULTIPART_OBJECT_SIZE,
    MIN_PART_SIZE,
};
use minio_rsc::payload::part_of;
use minio_rsc::upload::{Action, Event, Phase, Upload};

const MIB: u64 = 1024 * 1024;

#[test]
fn limits_have_their_values() {
    assert_eq!(MIN_PART_SIZE, 5 * MIB);
    assert_eq!(MAX_MULTIPART_OBJECT_SIZE, 5 * 1024 * 1024 * MIB);
}

#[test]
fn twelve_mib_in_three_parts() {
    let plan = UploadPlan::new(12 * MIB, 5 * MIB).unwrap();
    assert_eq!(plan.part_count(), 3);
    assert_eq!(plan.part_sizes(), vec![5 * MIB, 5 * MIB, 2 * MIB]);
    assert_eq!(plan.part_range(0), Some((0, 5 * MIB)));
    assert_eq!(plan.part_range(1), Some((5 * MIB, 10 * MIB)));
    assert_eq!(plan.part_range(2), Some((10 * MIB, 12 * MIB)));
    assert_eq!(plan.part_range(3), None);
    assert_eq!(plan.len(), 12 * MIB);
    assert_eq!(plan.part_size(), 5 * MIB);
}

#[test]
fn four_mib_in_one_part() {
    let plan = UploadPlan::new(4 * MIB, 5 * MIB).unwrap();
    assert_eq!(plan.part_count(), 1);
    assert_eq!(plan.part_sizes(), vec![4 * MIB]);
    assert_eq!(plan.part_range(0), Some((0, 4 * MIB)));
    assert_eq!(plan.part_range(1), None);
}

#[test]
fn plan_edges() {
    let empty = UploadPlan::new(0, 5 * MIB).unwrap();
    assert_eq!(empty.part_sizes(), vec![0]);
    let exact = UploadPlan::new(5 * MIB, 5 * MIB).unwrap();
    assert_eq!(exact.part_sizes(), vec![5 * MIB]);
    let one_over = UploadPlan::new(5 * MIB + 1, 5 * MIB).unwrap();
    assert_eq!(one_over.part_sizes(), vec![5 * MIB, 1]);
    let double = UploadPlan::new(10 * MIB, 5 * MIB).unwrap();
    assert_eq!(double.part_sizes(), vec![5 * MIB, 5 * MIB, 0]);
    let small = UploadPlan::new(10, 3).unwrap();
    assert_eq!(small.part_sizes(), vec![3, 3, 3, 1]);
    assert_eq!(small.part_sizes().iter().sum::<u64>(), 10);
}

#[test]
fn plan_refuses_what_is_out_of_bounds() {
    assert_eq!(UploadPlan::new(1, 0).err(), Some(ValueError::InvalidPartSize));
    assert_eq!(
        UploadPlan::new(MAX_MULTIPART_OBJECT_SIZE + 1, MIN_PART_SIZE).err(),
        Some(ValueError::ObjectTooLarge)
    );
    let largest = UploadPlan::new(MAX_MULTIPART_OBJECT_SIZE, MIN_PART_SIZE).unwrap();
    assert_eq!(largest.part_count(), 1024 * 1024 + 1);
    assert_eq!(largest.part_range(1024 * 1024), Some((MAX_MULTIPART_OBJECT_SIZE, MAX_MULTIPART_OBJECT_SIZE)));
}

#[test]
fn stream_in_small_chunks_gives_full_parts_and_a_rest() {
    let mut buffer = PartBuffer::new(10).unwrap();
    let chunks: [&[u8]; 9] = [b"abc", b"defg", b"hi", b"jkl", b"", b"mnopqr", b"stuvwx", b"yz", b"0"];
    let mut parts: Vec<Vec<u8>> = Vec::new();
    for c in chunks.iter() {
        if let Some(p) = buffer.push(c) {
            parts.push(p.to_vec());
        }
    }
    assert_eq!(buffer.held_len(), 3);
    if let Some(p) = buffer.finish() {
        parts.push(p.to_vec());
    }
    assert_eq!(
        parts,
        vec![b"abcdefghijkl".to_vec(), b"mnopqrstuvwx".to_vec(), b"yz0".to_vec()]
    );
    let all: Vec<u8> = parts.concat();
    assert_eq!(all, b"abcdefghijklmnopqrstuvwxyz0".to_vec());
    for p in &parts[..parts.len() - 1] {
        assert!(p.len() >= 10 && p.len() < 20);
    }
}

#[test]
fn stream_that_ends_on_a_full_part_has_no_rest() {
    let mut buffer = PartBuffer::new(4).unwrap();
    assert_eq!(buffer.push(b"ab"), None);
    assert_eq!(buffer.push(b"cd"), Some(Bytes::from_static(b"abcd")));
    assert_eq!(buffer.held_len(), 0);
    assert_eq!(buffer.finish(), None);
}

#[test]
fn stream_chunk_over_the_part_size_leaves_at_once() {
    let mut buffer = PartBuffer::new(4).unwrap();
    assert_eq!(buffer.push(b"a"), None);
    assert_eq!(buffer.push(b"bcdefghij"), Some(Bytes::from_static(b"abcdefghij")));
    assert_eq!(buffer.finish(), None);
    assert_eq!(PartBuffer::new(0).err(), Some(ValueError::InvalidPartSize));
}

#[test]
fn payload_is_cut_where_the_plan_says() {
    let data = Bytes::from_static(b"0123456789");
    let plan = UploadPlan::new(10, 4).unwrap();
    assert_eq!(part_of(&data, &plan, 0), Some(Bytes::from_static(b"0123")));
    assert_eq!(part_of(&data, &plan, 1), Some(Bytes::from_static(b"4567")));
    assert_eq!(part_of(&data, &plan, 2), Some(Bytes::from_static(b"89")));
    assert_eq!(part_of(&data, &plan, 3), None);
    let exact = UploadPlan::new(8, 4).unwrap();
    let eight = data.slice(0..8);
    assert_eq!(part_of(&eight, &exact, 1), Some(Bytes::from_static(b"4567")));
    assert_eq!(part_of(&eight, &exact, 2), Some(Bytes::new()));
    assert_eq!(part_of(&data, &exact, 0), None);
    let joined: Vec<u8> = (0..3).flat_map(|i| part_of(&data, &plan, i).unwrap().to_vec()).collect();
    assert_eq!(joined, data.to_vec());
}

#[test]
fn empty_stream_has_no_parts() {
    let buffer = PartBuffer::new(4).unwrap();
    assert_eq!(buffer.finish(), None);
}

#[test]
fn session_numbers_its_parts_from_one() {
    let mut s = MultipartSession::new("bucket", "key", "id-1", 5).unwrap();
    assert_eq!(s.state(), SessionState::Initiated);
    assert_eq!(s.upload_id(), "id-1");
    assert_eq!(s.bucket(), "bucket");
    assert_eq!(s.key(), "key");
    assert_eq!(s.add_part("e1".to_string(), 5), Ok(()));
    assert_eq!(s.state(), SessionState::Uploading);
    assert_eq!(s.add_part("e2".to_string(), 7), Ok(()));
    assert_eq!(s.add_part("e3".to_string(), 2), Ok(()));
    assert_eq!(s.part_count(), 3);
    assert_eq!(s.total_size(), 14);
    let numbers: Vec<u64> = (0..3).map(|i| s.part(i).unwrap().part_number).collect();
    assert_eq!(numbers, vec![1, 2, 3]);
    assert_eq!(s.part(2).unwrap().etag, "e3");
    assert_eq!(s.part(2).unwrap().size, 2);
    assert!(s.part(3).is_none());
}

#[test]
fn session_refuses_a_part_after_an_undersized_one() {
    let mut s = MultipartSession::new("bucket", "key", "id", 5).unwrap();
    assert_eq!(s.add_part("e1".to_string(), 4), Ok(()));
    assert_eq!(s.check_part(9), Err(ValueError::UndersizedPart));
    assert_eq!(s.add_part("e2".to_string(), 9), Err(ValueError::UndersizedPart));
    assert_eq!(s.part_count(), 1);
}

#[test]
fn session_refuses_parts_over_the_limit() {
    let mut s = MultipartSession::new("bucket", "key", "id", 1).unwrap();
    assert_eq!(s.add_part("e1".to_string(), MAX_MULTIPART_OBJECT_SIZE), Ok(()));
    assert_eq!(s.add_part("e2".to_string(), 1), Err(ValueError::ObjectTooLarge));
    assert_eq!(s.add_part("e2".to_string(), 0), Ok(()));
    assert_eq!(MultipartSession::new("b", "k", "id", 0).err(), Some(ValueError::InvalidPartSize));
}

#[test]
fn closed_session_takes_no_parts() {
    let mut done = MultipartSession::new("bucket", "key", "id", 5).unwrap();
    done.add_part("e1".to_string(), 5).unwrap();
    assert_eq!(done.mark_completed(), Ok(()));
    assert_eq!(done.state(), SessionState::Completed);
    assert_eq!(done.add_part("e2".to_string(), 5), Err(ValueError::SessionClosed));
    assert_eq!(done.mark_completed(), Err(ValueError::SessionClosed));
    assert_eq!(done.mark_aborted(), Err(ValueError::SessionClosed));
    assert_eq!(done.state(), SessionState::Completed);

    let mut gone = MultipartSession::new("bucket", "key", "id", 5).unwrap();
    assert_eq!(gone.mark_aborted(), Ok(()));
    assert_eq!(gone.mark_aborted(), Ok(()));
    assert_eq!(gone.state(), SessionState::Aborted);
    assert_eq!(gone.add_part("e".to_string(), 5), Err(ValueError::SessionClosed));
    assert_eq!(gone.mark_completed(), Err(ValueError::SessionClosed));
}

#[test]
fn completion_body_lists_parts_in_order() {
    let mut s = MultipartSession::new("bucket", "key", "id", 5).unwrap();
    assert_eq!(s.completion_body(), "<CompleteMultipartUpload></CompleteMultipartUpload>");
    s.add_part("\"aaa\"".to_string(), 5).unwrap();
    s.add_part("\"bbb\"".to_string(), 3).unwrap();
    assert_eq!(
        s.completion_body(),
        "<CompleteMultipartUpload><Part><PartNumber>1</PartNumber><ETag>\"aaa\"</ETag></Part><Part><PartNumber>2</PartNumber><ETag>\"bbb\"</ETag></Part></CompleteMultipartUpload>"
    );
}

fn failure(text: &str) -> Error {
    Error::RequestError(text.to_string())
}

fn upload_with_one_part_taken() -> Upload {
    let (mut u, first) = Upload::start("bucket", "key", 5).unwrap();
    assert_eq!(first, Action::Initiate);
    assert_eq!(u.phase(), Phase::Initiating);
    assert!(u.session().is_none());
    assert_eq!(
        u.step(Event::Initiated { upload_id: "upload-7".to_string() }),
        Some(Action::NextPart)
    );
    assert_eq!(u.step(Event::PartReady { size: 5 }), Some(Action::UploadPart { part_number: 1 }));
    assert_eq!(u.step(Event::PartUploaded { etag: "e1".to_string() }), Some(Action::NextPart));
    assert_eq!(u.step(Event::PartReady { size: 5 }), Some(Action::UploadPart { part_number: 2 }));
    u
}

#[test]
fn upload_of_three_parts_runs_to_completion() {
    let mut u = upload_with_one_part_taken();
    assert_eq!(u.step(Event::PartUploaded { etag: "e2".to_string() }), Some(Action::NextPart));
    assert_eq!(u.step(Event::PartReady { size: 2 }), Some(Action::UploadPart { part_number: 3 }));
    assert_eq!(u.step(Event::PartUploaded { etag: "e3".to_string() }), Some(Action::NextPart));
    assert_eq!(u.step(Event::SourceEnded), Some(Action::Complete));
    assert_eq!(u.phase(), Phase::Completing);
    assert_eq!(u.session().unwrap().part_count(), 3);
    assert_eq!(u.step(Event::Completed), Some(Action::Finish(Ok(()))));
    assert_eq!(u.phase(), Phase::Done);
    assert_eq!(u.session().unwrap().state(), SessionState::Completed);
    assert_eq!(u.step(Event::Completed), None);
    assert_eq!(u.step(Event::PartReady { size: 1 }), None);
}

#[test]
fn failed_part_two_of_three_aborts_and_returns_the_failure() {
    let mut u = upload_with_one_part_taken();
    assert_eq!(u.step(Event::PartFailed(failure("part 2"))), Some(Action::Abort));
    assert_eq!(u.phase(), Phase::Aborting);
    assert_eq!(u.session().unwrap().upload_id(), "upload-7");
    assert_eq!(u.session().unwrap().part_count(), 1);
    assert_eq!(u.step(Event::Aborted), Some(Action::Finish(Err(failure("part 2")))));
    assert_eq!(u.phase(), Phase::Done);
    assert_eq!(u.session().unwrap().state(), SessionState::Aborted);
    assert_eq!(u.step(Event::Completed), None);
    assert_eq!(u.step(Event::Aborted), None);
}

#[test]
fn failed_abort_replaces_the_failure_of_the_part() {
    let mut u = upload_with_one_part_taken();
    assert_eq!(u.step(Event::PartFailed(failure("part 2"))), Some(Action::Abort));
    assert_eq!(
        u.step(Event::AbortFailed(failure("abort"))),
        Some(Action::Finish(Err(failure("abort"))))
    );
    assert_eq!(u.phase(), Phase::Done);
    assert_eq!(u.step(Event::Completed), None);
}

#[test]
fn failed_initiation_ends_the_upload_without_abort() {
    let (mut u, _) = Upload::start("bucket", "key", 5).unwrap();
    assert_eq!(
        u.step(Event::InitiateFailed(failure("no"))),
        Some(Action::Finish(Err(failure("no"))))
    );
    assert_eq!(u.phase(), Phase::Done);
    assert!(u.session().is_none());
    assert!(Upload::start("bucket", "key", 0).is_err());
}

#[test]
fn failed_completion_and_failed_source_abort() {
    let mut u = upload_with_one_part_taken();
    assert_eq!(u.step(Event::PartUploaded { etag: "e2".to_string() }), Some(Action::NextPart));
    assert_eq!(u.step(Event::SourceEnded), Some(Action::Complete));
    assert_eq!(u.step(Event::CompleteFailed(failure("complete"))), Some(Action::Abort));
    assert_eq!(u.step(Event::Aborted), Some(Action::Finish(Err(failure("complete")))));

    let (mut v, _) = Upload::start("bucket", "key", 5).unwrap();
    v.step(Event::Initiated { upload_id: "id".to_string() });
    assert_eq!(v.step(Event::SourceFailed(Error::IoError("read".to_string()))), Some(Action::Abort));
    assert_eq!(
        v.step(Event::Aborted),
        Some(Action::Finish(Err(Error::IoError("read".to_string()))))
    );
}

#[test]
fn part_that_the_session_cannot_take_aborts() {
    let (mut u, _) = Upload::start("bucket", "key", 5).unwrap();
    u.step(Event::Initiated { upload_id: "id".to_string() });
    assert_eq!(u.step(Event::PartReady { size: 3 }), Some(Action::UploadPart { part_number: 1 }));
    assert_eq!(u.step(Event::PartUploaded { etag: "e1".to_string() }), Some(Action::NextPart));
    assert_eq!(u.step(Event::PartReady { size: 5 }), Some(Action::Abort));
    assert_eq!(
        u.step(Event::Aborted),
        Some(Action::Finish(Err(Error::ValueError(ValueError::UndersizedPart))))
    );
}

#[test]
fn events_out_of_turn_change_nothing() {
    let (mut u, _) = Upload::start("bucket", "key", 5).unwrap();
    assert_eq!(u.step(Event::PartReady { size: 5 }), None);
    assert_eq!(u.step(Event::Aborted), None);
    assert_eq!(u.phase(), Phase::Initiating);
    u.step(Event::Initiated { upload_id: "id".to_string() });
    assert_eq!(u.step(Event::PartUploaded { etag: "e".to_string() }), None);
    assert_eq!(u.step(Event::Completed), None);
    assert_eq!(u.phase(), Phase::Filling);
}
