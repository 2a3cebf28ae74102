use pgoutput_decoder::errors::DecodeError;
use pgoutput_decoder::replication::{ChangeOp, LogicalReplicationReader};
use pgoutput_decoder::values::PgValue;
use pgoutput_decoder::utils::parse_u64_decimal;

fn relation_payload() -> Vec<u8> {
    vec![
        0x52, 0x00, 0x00, 0x00, 0x29, 0x70, 0x75, 0x62, 0x6C, 0x69, 0x63, 0x00, 0x74, 0x65, 0x73,
        0x74, 0x00, 0x66, 0x00, 0x02, 0x01, 0x69, 0x64, 0x00, 0x00, 0x00, 0x00, 0x17, 0xFF, 0xFF,
        0xFF, 0xFF, 0x00, 0x76, 0x61, 0x6C, 0x00, 0x00, 0x00, 0x00, 0x19, 0xFF, 0xFF, 0xFF, 0xFF,
    ]
}

fn insert_payload() -> Vec<u8> {
    vec![
        0x49, 0x00, 0x00, 0x00, 0x29, 0x4E, 0x00, 0x02, 0x74, 0x00, 0x00, 0x00, 0x01, 0x31, 0x74,
        0x00, 0x00, 0x00, 0x05, 0x68, 0x65, 0x6C, 0x6C, 0x6F,
    ]
}

#[test]
fn insert_becomes_create_record_with_auto_ack() {
    let mut r = LogicalReplicationReader::new(true);
    let out = r
        .handle_xlog(&relation_payload(), 0x100, "db", 1, 2, 3)
        .unwrap();
    assert!(out.record.is_none());
    assert_eq!(out.ack_now, Some(0x100));

    let out = r.handle_xlog(&insert_payload(), 0x200, "db", 10, 20, 30).unwrap();
    assert_eq!(out.ack_now, Some(0x200));
    let rec = out.record.expect("a row change yields a record");
    assert_eq!(rec.op, ChangeOp::Create);
    assert!(rec.before.is_none());
    let after = rec.after.expect("insert has an after image");
    assert_eq!(after.len(), 2);
    assert_eq!(after[0].0, "id");
    assert!(matches!(after[0].1, PgValue::Int(1)));
    assert_eq!(after[1].0, "val");
    assert!(matches!(&after[1].1, PgValue::Text(s) if s == "hello"));
    assert_eq!(rec.source.db, "db");
    assert_eq!(rec.source.schema, "public");
    assert_eq!(rec.source.table, "test");
    assert_eq!(rec.source.lsn, 0x200);
    assert_eq!(rec.source.ts_ms, 10);
    assert_eq!(rec.ts_ms, 10);
    assert_eq!(rec.ts_us, Some(20));
    assert_eq!(rec.ts_ns, Some(30));
}

#[test]
fn tuple_event_without_relation_is_an_error() {
    let mut r = LogicalReplicationReader::new(true);
    match r.handle_xlog(&insert_payload(), 0x200, "db", 1, 2, 3) {
        Err(e) => assert_eq!(e, DecodeError::UnknownRelation(41)),
        Ok(_) => panic!("a tuple event without its relation must fail"),
    }
}

#[test]
fn manual_mode_parks_pending_lsn() {
    let mut r = LogicalReplicationReader::new(false);
    let out = r
        .handle_xlog(&relation_payload(), 0x100, "db", 1, 2, 3)
        .unwrap();
    assert_eq!(out.ack_now, None);
    assert_eq!(r.pending_lsn(), Some(0x100));
    // acknowledging with no explicit position takes the pending one
    assert_eq!(r.acknowledge(None), Some(0x100));
    // and consuming it makes the next acknowledgement a no-op
    assert_eq!(r.acknowledge(None), None);
    // an explicit position always wins
    assert_eq!(r.acknowledge(Some(0x500)), Some(0x500));
}

#[test]
fn decode_error_stops_the_reader() {
    let mut r = LogicalReplicationReader::new(true);
    assert!(!r.stopped());
    match r.handle_xlog(&[0x5A], 0x10, "db", 1, 2, 3) {
        Err(e) => assert_eq!(e, DecodeError::UnknownTag(0x5A)),
        Ok(_) => panic!("an unknown tag must fail"),
    }
    // the failure terminates the session: the reader is stopped
    assert!(r.stopped());
}

#[test]
fn stop_flag() {
    let mut r = LogicalReplicationReader::new(true);
    assert!(!r.stopped());
    r.stop();
    assert!(r.stopped());
}

#[test]
fn decimal_lsn_text() {
    assert_eq!(parse_u64_decimal("123"), Some(123));
    assert_eq!(parse_u64_decimal("+5"), Some(5));
    assert_eq!(parse_u64_decimal("0"), Some(0));
    assert_eq!(parse_u64_decimal("18446744073709551615"), Some(u64::MAX));
    assert_eq!(parse_u64_decimal("18446744073709551616"), None);
    assert_eq!(parse_u64_decimal(""), None);
    assert_eq!(parse_u64_decimal("+"), None);
    assert_eq!(parse_u64_decimal("12a"), None);
    assert_eq!(parse_u64_decimal("-3"), None);
}
