use pgoutput_decoder::errors::ProtocolError;
use pgoutput_decoder::progress::ProgressLedger;
use pgoutput_decoder::session::{
    parse_copy_data, Phase, ReplicationEvent, Session, WireFrame,
};

fn xlog_payload(wal_start: u64, wal_end: u64, server_time: i64, data: &[u8]) -> Vec<u8> {
    let mut p = vec![0x77];
    p.extend_from_slice(&wal_start.to_be_bytes());
    p.extend_from_slice(&wal_end.to_be_bytes());
    p.extend_from_slice(&server_time.to_be_bytes());
    p.extend_from_slice(data);
    p
}

fn keepalive_payload(wal_end: u64, server_time: i64, reply: u8) -> Vec<u8> {
    let mut p = vec![0x6B];
    p.extend_from_slice(&wal_end.to_be_bytes());
    p.extend_from_slice(&server_time.to_be_bytes());
    p.push(reply);
    p
}

#[test]
fn parse_xlog_data_frame() {
    let p = xlog_payload(10, 20, -5, b"abc");
    match parse_copy_data(&p).unwrap() {
        WireFrame::XLogData { wal_start, wal_end, server_time, data } => {
            assert_eq!(wal_start, 10);
            assert_eq!(wal_end, 20);
            assert_eq!(server_time, -5);
            assert_eq!(data, b"abc".to_vec());
        }
        other => panic!("expected XLogData, got {:?}", other),
    }
}

#[test]
fn parse_keepalive_frame() {
    let p = keepalive_payload(0x16B3C000, 7, 1);
    match parse_copy_data(&p).unwrap() {
        WireFrame::Keepalive { wal_end, server_time, reply_requested } => {
            assert_eq!(wal_end, 0x16B3C000);
            assert_eq!(server_time, 7);
            assert!(reply_requested);
        }
        other => panic!("expected Keepalive, got {:?}", other),
    }
}

#[test]
fn parse_copy_data_errors() {
    assert_eq!(
        parse_copy_data(&[]).unwrap_err(),
        ProtocolError::TruncatedCopyData
    );
    assert_eq!(
        parse_copy_data(&[0x77, 1, 2]).unwrap_err(),
        ProtocolError::TruncatedCopyData
    );
    assert_eq!(
        parse_copy_data(&[0x6B, 1]).unwrap_err(),
        ProtocolError::TruncatedCopyData
    );
    assert_eq!(
        parse_copy_data(&[0x7A, 0, 0]).unwrap_err(),
        ProtocolError::UnknownCopyDataTag(0x7A)
    );
}

#[test]
fn keepalive_with_reply_schedules_status() {
    let mut s = Session::new(0x100, None);
    let frame = parse_copy_data(&keepalive_payload(0x16B3C000, 7, 1)).unwrap();
    let (events, actions) = s.handle_frame(frame);
    assert_eq!(events.len(), 1);
    assert!(matches!(
        events[0],
        ReplicationEvent::KeepAlive { wal_end: 0x16B3C000, reply_requested: true, .. }
    ));
    assert!(actions.send_status);
    assert!(!actions.send_copy_done);
    // the status update sent next carries the current watermarks
    let status = s.make_status_update(99);
    assert_eq!(status[0], 0x72);
    assert_eq!(&status[1..9], &0x100u64.to_be_bytes());
    assert_eq!(&status[9..17], &0x100u64.to_be_bytes());
    assert_eq!(&status[17..25], &0x100u64.to_be_bytes());
    assert_eq!(&status[25..33], &99i64.to_be_bytes());
    assert_eq!(status[33], 0);
    assert_eq!(status.len(), 34);
}

#[test]
fn xlog_advances_last_written() {
    let mut s = Session::new(0, None);
    let frame = parse_copy_data(&xlog_payload(1, 0x500, 0, b"x")).unwrap();
    let (events, actions) = s.handle_frame(frame);
    assert_eq!(events.len(), 1);
    assert!(!actions.send_copy_done);
    assert_eq!(s.ledger.last_written, 0x500);
    assert_eq!(s.ledger.last_applied, 0);
    // a frame behind the watermark does not move it back
    let frame = parse_copy_data(&xlog_payload(1, 0x400, 0, b"x")).unwrap();
    s.handle_frame(frame);
    assert_eq!(s.ledger.last_written, 0x500);
}

#[test]
fn stop_at_semantics() {
    let mut s = Session::new(0, Some(0x1000));
    let frame = parse_copy_data(&xlog_payload(1, 0x0FFF, 0, b"a")).unwrap();
    let (events, actions) = s.handle_frame(frame);
    assert_eq!(events.len(), 1);
    assert!(matches!(events[0], ReplicationEvent::XLogData { wal_end: 0x0FFF, .. }));
    assert!(!actions.send_copy_done);
    assert_eq!(s.phase, Phase::Streaming);

    let frame = parse_copy_data(&xlog_payload(1, 0x1000, 0, b"b")).unwrap();
    let (events, actions) = s.handle_frame(frame);
    assert_eq!(events.len(), 2);
    assert!(matches!(events[0], ReplicationEvent::XLogData { wal_end: 0x1000, .. }));
    assert!(matches!(events[1], ReplicationEvent::StoppedAt { lsn: 0x1000 }));
    assert!(actions.send_copy_done);
    assert_eq!(s.phase, Phase::Closing);

    // nothing further is emitted after the stop position
    let frame = parse_copy_data(&xlog_payload(1, 0x2000, 0, b"c")).unwrap();
    let (events, actions) = s.handle_frame(frame);
    assert!(events.is_empty());
    assert!(!actions.send_copy_done);
}

#[test]
fn progress_monotonic_under_acknowledgements() {
    let mut l = ProgressLedger::new(5);
    l.observe_write(10);
    assert_eq!((l.last_written, l.last_flushed, l.last_applied), (10, 5, 5));
    l.update_applied_lsn(7);
    assert_eq!((l.last_written, l.last_flushed, l.last_applied), (10, 7, 7));
    // an older acknowledgement is clamped upward, never surfacing backward
    l.update_applied_lsn(3);
    assert_eq!((l.last_written, l.last_flushed, l.last_applied), (10, 7, 7));
    // acknowledging past the write watermark raises it to keep the ordering
    l.update_applied_lsn(20);
    assert_eq!((l.last_written, l.last_flushed, l.last_applied), (20, 20, 20));
}

#[test]
fn session_ack_marks_status_due() {
    let mut s = Session::new(0, None);
    s.update_applied_lsn(50);
    assert!(s.status_due);
    assert_eq!(s.ledger.last_applied, 50);
    let sent = s.on_status_timer();
    assert!(sent);
    assert!(!s.status_due);
}

#[test]
fn close_transitions() {
    let mut s = Session::new(0, None);
    assert!(s.close());
    assert_eq!(s.phase, Phase::Closing);
    assert!(!s.close());
    s.mark_terminated();
    assert_eq!(s.phase, Phase::Terminated);
    let frame = parse_copy_data(&xlog_payload(1, 9, 0, b"a")).unwrap();
    let (events, _) = s.handle_frame(frame);
    assert!(events.is_empty());
}
