use es_wifi::stream::{
    chunk_plan, frame_chunk, read_request_len, apply_read_outcome, run_read_session,
    run_write_session, ReadOutcome, ReadStep, WriteProgress, WRITE_CHUNK_LIMIT,
};
use es_wifi::SocketError;

#[test]
fn write_of_2500_bytes_issues_exactly_three_chunks() {
    assert_eq!(chunk_plan(2500), vec![1200, 1200, 100]);
}

#[test]
fn empty_write_issues_no_chunk() {
    assert_eq!(chunk_plan(0), Vec::<usize>::new());
}

#[test]
fn write_at_the_ceiling_is_one_chunk() {
    assert_eq!(chunk_plan(WRITE_CHUNK_LIMIT), vec![1200]);
}

#[test]
fn write_just_over_the_ceiling_splits() {
    assert_eq!(chunk_plan(1201), vec![1200, 1]);
}

#[test]
fn write_of_whole_chunks_has_no_remainder_chunk() {
    assert_eq!(chunk_plan(2400), vec![1200, 1200]);
}

#[test]
fn write_succeeds_when_every_chunk_is_acknowledged() {
    let mut progress = WriteProgress::begin(2500);
    assert_eq!(progress.next_chunk(), 1200);
    assert_eq!(progress.apply_ack(Some(1200)), Ok(()));
    assert_eq!(progress.next_chunk(), 1200);
    assert_eq!(progress.apply_ack(Some(1200)), Ok(()));
    assert_eq!(progress.next_chunk(), 100);
    assert_eq!(progress.apply_ack(Some(100)), Ok(()));
    assert!(progress.finished());
}

#[test]
fn wrong_acknowledged_count_aborts_the_write() {
    let mut progress = WriteProgress::begin(2500);
    assert_eq!(progress.apply_ack(Some(99)), Err(SocketError::WriteError));
    assert!(!progress.finished());
}

#[test]
fn unparseable_write_response_aborts_the_write() {
    let mut progress = WriteProgress::begin(10);
    assert_eq!(progress.apply_ack(None), Err(SocketError::WriteError));
}

#[test]
fn write_session_succeeds_when_every_chunk_reports_its_count() {
    let acks = vec![Some(1200), Some(1200), Some(100)];
    assert_eq!(run_write_session(2500, &acks), Ok(2500));
}

#[test]
fn write_session_aborts_on_a_wrong_count() {
    let acks = vec![Some(1200), Some(99), Some(100)];
    assert_eq!(run_write_session(2500, &acks), Err(SocketError::WriteError));
}

#[test]
fn write_session_aborts_when_a_response_is_missing() {
    let acks = vec![Some(1200), Some(1200)];
    assert_eq!(run_write_session(2500, &acks), Err(SocketError::WriteError));
}

#[test]
fn empty_write_session_succeeds_without_responses() {
    assert_eq!(run_write_session(0, &Vec::new()), Ok(0));
}

#[test]
fn even_announcement_swallows_no_data() {
    let data = vec![0xAAu8; 1200];
    let (announce, skip) = frame_chunk(&data, 0, 1200);
    // "S3=1200" + CR is eight bytes already.
    assert_eq!(
        announce,
        vec![b'S', b'3', b'=', b'1', b'2', b'0', b'0', b'\r']
    );
    assert_eq!(skip, 0);
}

#[test]
fn odd_announcement_folds_in_the_first_data_byte() {
    let mut data = vec![0u8; 100];
    data[0] = 0x77;
    let (announce, skip) = frame_chunk(&data, 0, 100);
    // "S3=100" + CR is seven bytes; the first data byte completes the pair.
    assert_eq!(
        announce,
        vec![b'S', b'3', b'=', b'1', b'0', b'0', b'\r', 0x77]
    );
    assert_eq!(skip, 1);
    assert_eq!(announce.len() % 2, 0);
}

#[test]
fn read_request_is_bounded_by_caller_room() {
    assert_eq!(read_request_len(20, 0), 20);
    assert_eq!(read_request_len(20, 12), 8);
}

#[test]
fn read_request_is_bounded_by_the_response_buffer() {
    assert_eq!(read_request_len(5000, 0), 1460);
    assert_eq!(read_request_len(5000, 4000), 1000);
}

#[test]
fn partial_read_then_failure_is_a_short_read() {
    let mut buf = vec![0u8; 20];
    let step = apply_read_outcome(&mut buf, 0, Some(ReadOutcome::Data(vec![0xAB; 12])));
    assert_eq!(step, ReadStep::More(12));
    let step = apply_read_outcome(&mut buf, 12, Some(ReadOutcome::Failed));
    assert_eq!(step, ReadStep::Finished(12));
    assert!(buf[..12].iter().all(|&b| b == 0xAB));
    assert!(buf[12..].iter().all(|&b| b == 0));
}

#[test]
fn failure_on_the_first_iteration_is_a_hard_error() {
    let mut buf = vec![0u8; 20];
    let step = apply_read_outcome(&mut buf, 0, Some(ReadOutcome::Failed));
    assert_eq!(step, ReadStep::Abort(SocketError::ReadError));
    assert!(buf.iter().all(|&b| b == 0));
}

#[test]
fn unparseable_read_response_on_the_first_iteration_is_a_hard_error() {
    let mut buf = vec![0u8; 8];
    let step = apply_read_outcome(&mut buf, 0, None);
    assert_eq!(step, ReadStep::Abort(SocketError::ReadError));
}

#[test]
fn empty_payload_finishes_the_read() {
    let mut buf = vec![0u8; 8];
    let step = apply_read_outcome(&mut buf, 3, Some(ReadOutcome::Data(Vec::new())));
    assert_eq!(step, ReadStep::Finished(3));
}

#[test]
fn payload_filling_the_buffer_finishes_the_read() {
    let mut buf = vec![0u8; 8];
    let step = apply_read_outcome(&mut buf, 4, Some(ReadOutcome::Data(vec![1, 2, 3, 4])));
    assert_eq!(step, ReadStep::Finished(8));
    assert_eq!(&buf[4..], &[1, 2, 3, 4]);
}

#[test]
fn oversized_payload_after_delivery_is_a_short_read() {
    let mut buf = vec![9u8; 8];
    let step = apply_read_outcome(&mut buf, 4, Some(ReadOutcome::Data(vec![1, 2, 3, 4, 5])));
    assert_eq!(step, ReadStep::Finished(4));
    assert!(buf.iter().all(|&b| b == 9));
}

#[test]
fn oversized_payload_with_nothing_delivered_is_a_hard_error() {
    let mut buf = vec![0u8; 4];
    let step = apply_read_outcome(&mut buf, 0, Some(ReadOutcome::Data(vec![1, 2, 3, 4, 5])));
    assert_eq!(step, ReadStep::Abort(SocketError::ReadError));
}

#[test]
fn read_session_degrades_a_late_failure_into_a_short_read() {
    let mut buf = vec![0u8; 20];
    let events = vec![Some(ReadOutcome::Data(vec![0xAB; 12])), Some(ReadOutcome::Failed)];
    assert_eq!(run_read_session(&mut buf, events), Ok(12));
    assert!(buf[..12].iter().all(|&b| b == 0xAB));
    assert!(buf[12..].iter().all(|&b| b == 0));
}

#[test]
fn read_session_fails_hard_when_the_first_iteration_fails() {
    let mut buf = vec![0u8; 20];
    let events = vec![Some(ReadOutcome::Failed)];
    assert_eq!(
        run_read_session(&mut buf, events),
        Err(SocketError::ReadError)
    );
    assert!(buf.iter().all(|&b| b == 0));
}

#[test]
fn read_session_ends_at_an_empty_payload() {
    let mut buf = vec![0u8; 8];
    let events = vec![Some(ReadOutcome::Data(Vec::new()))];
    assert_eq!(run_read_session(&mut buf, events), Ok(0));
}

#[test]
fn read_session_ends_when_the_buffer_is_full() {
    let mut buf = vec![0u8; 4];
    let events = vec![Some(ReadOutcome::Data(vec![7, 8, 9, 10]))];
    assert_eq!(run_read_session(&mut buf, events), Ok(4));
    assert_eq!(buf, vec![7, 8, 9, 10]);
}

#[test]
fn read_session_accumulates_across_iterations() {
    let mut buf = vec![0u8; 6];
    let events = vec![
        Some(ReadOutcome::Data(vec![1, 2])),
        Some(ReadOutcome::Data(vec![3, 4])),
        Some(ReadOutcome::Data(vec![5, 6])),
    ];
    assert_eq!(run_read_session(&mut buf, events), Ok(6));
    assert_eq!(buf, vec![1, 2, 3, 4, 5, 6]);
}
