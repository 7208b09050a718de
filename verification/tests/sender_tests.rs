use filetransfer::sender::{SendAction, SenderSession};
use filetransfer::Mode;

fn session_3000_1200() -> SenderSession {
    // 10 Mbit/s = 1_250_000 bytes/s; 1200-byte chunks -> 960_000 ns apart
    SenderSession::new(Mode::Datagram, 1200, 1_250_000, 3000, 42, 1_000_000)
}

#[test]
fn interval_is_chunk_over_rate() {
    let s = session_3000_1200();
    assert_eq!(s.interval_ns, 960_000);
    assert_eq!(s.sent_bytes, 0);
    assert_eq!(s.next_deadline_ns, 1_000_000);
    assert_eq!(s.stream_id, None);
}

#[test]
fn chunk_partition_scenario() {
    // 3000 bytes in 1200-byte chunks: offsets 0, 1200, 2400 with the
    // final 600-byte chunk flagged last
    let mut s = session_3000_1200();
    let now = 10_000_000; // past every deadline

    match s.next_action(now) {
        SendAction::SendChunk { offset, len, last } => {
            assert_eq!((offset, len, last), (0, 1200, false));
        }
        other => panic!("expected a chunk, got {:?}", other),
    }
    s.on_chunk_sent();

    match s.next_action(now) {
        SendAction::SendChunk { offset, len, last } => {
            assert_eq!((offset, len, last), (1200, 1200, false));
        }
        other => panic!("expected a chunk, got {:?}", other),
    }
    s.on_chunk_sent();

    match s.next_action(now) {
        SendAction::SendChunk { offset, len, last } => {
            assert_eq!((offset, len, last), (2400, 600, true));
        }
        other => panic!("expected a chunk, got {:?}", other),
    }
    s.on_chunk_sent();

    assert_eq!(s.sent_bytes, 3000);
    assert_eq!(s.next_action(now), SendAction::Close);
}

#[test]
fn exact_division_marks_only_final_chunk_last() {
    let mut s = SenderSession::new(Mode::Stream, 1000, 1_000_000, 2000, 7, 0);
    match s.next_action(0) {
        SendAction::SendChunk { offset, len, last } => {
            assert_eq!((offset, len, last), (0, 1000, false));
        }
        other => panic!("expected a chunk, got {:?}", other),
    }
    s.on_chunk_sent();
    match s.next_action(u64::MAX) {
        SendAction::SendChunk { offset, len, last } => {
            assert_eq!((offset, len, last), (1000, 1000, true));
        }
        other => panic!("expected a chunk, got {:?}", other),
    }
    s.on_chunk_sent();
    assert_eq!(s.next_action(0), SendAction::Close);
}

#[test]
fn waits_until_deadline() {
    let s = session_3000_1200();
    assert_eq!(s.next_action(999_999), SendAction::Wait);
    assert!(matches!(s.next_action(1_000_000), SendAction::SendChunk { .. }));
}

#[test]
fn pacing_deadline_advances_by_fixed_interval() {
    let mut s = session_3000_1200();
    let start = s.next_deadline_ns;
    let now = u64::MAX / 2; // far past every deadline: a catch-up burst
    for _ in 0..3 {
        assert!(matches!(s.next_action(now), SendAction::SendChunk { .. }));
        s.on_chunk_sent();
    }
    // three chunks of 1200 bytes at 1_250_000 bytes/s: deadline time
    // moved 3 * 960_000 ns, regardless of the wall clock
    assert_eq!(s.next_deadline_ns, start + 3 * 960_000);
}

#[test]
fn make_header_frames_next_chunk() {
    let mut s = session_3000_1200();
    s.on_chunk_sent();
    s.on_chunk_sent();
    let h = s.make_header(555);
    assert_eq!(h.file_id, 42);
    assert_eq!(h.total_size, 3000);
    assert_eq!(h.offset, 2400);
    assert_eq!(h.len, 600);
    assert_eq!(h.flags, 1);
    assert_eq!(h.send_ts_ns, 555);
}

#[test]
fn established_restarts_pacing_and_keeps_stream() {
    let mut s = session_3000_1200();
    s.on_established(4, 77);
    assert_eq!(s.stream_id, Some(4));
    assert_eq!(s.next_deadline_ns, 77);
    // a later stream-created callback must not displace the held id
    s.on_stream_created(9);
    assert_eq!(s.stream_id, Some(4));
}

#[test]
fn stream_created_fills_empty_slot() {
    let mut s = session_3000_1200();
    assert_eq!(s.stream_id, None);
    s.on_stream_created(9);
    assert_eq!(s.stream_id, Some(9));
}

#[test]
fn empty_file_closes_at_once() {
    let s = SenderSession::new(Mode::Datagram, 1200, 1_250_000, 0, 1, 0);
    assert_eq!(s.next_action(0), SendAction::Close);
}
