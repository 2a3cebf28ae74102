use pgoutput_decoder::decoder::PgOutputDecoder;
use pgoutput_decoder::errors::DecodeError;
use pgoutput_decoder::messages::{PgOutputMessage, TupleValue};

fn relation_payload() -> Vec<u8> {
    vec![
        0x52, 0x00, 0x00, 0x00, 0x29, 0x70, 0x75, 0x62, 0x6C, 0x69, 0x63, 0x00, 0x74, 0x65, 0x73,
        0x74, 0x00, 0x66, 0x00, 0x02, 0x01, 0x69, 0x64, 0x00, 0x00, 0x00, 0x00, 0x17, 0xFF, 0xFF,
        0xFF, 0xFF, 0x00, 0x76, 0x61, 0x6C, 0x00, 0x00, 0x00, 0x00, 0x19, 0xFF, 0xFF, 0xFF, 0xFF,
    ]
}

fn insert_payload() -> Vec<u8> {
    vec![
        0x49, 0x00, 0x00, 0x00, 0x29, 0x4E, 0x00, 0x02, 0x74, 0x00, 0x00, 0x00, 0x01, 0x31, 0x74,
        0x00, 0x00, 0x00, 0x05, 0x68, 0x65, 0x6C, 0x6C, 0x6F,
    ]
}

#[test]
fn begin_message_fields() {
    let mut d = PgOutputDecoder::new();
    let payload = vec![
        0x42, 0x00, 0x00, 0x00, 0x00, 0x00, 0x00, 0x00, 0x64, 0x00, 0x02, 0xB3, 0xDB, 0x9E, 0x23,
        0x18, 0x40, 0x00, 0x00, 0x04, 0xD2,
    ];
    match d.decode(&payload).unwrap() {
        PgOutputMessage::Begin(b) => {
            assert_eq!(b.final_lsn, 100);
            assert_eq!(b.timestamp, 0x0002B3DB9E231840);
            assert_eq!(b.xid, 1234);
        }
        other => panic!("expected Begin, got {:?}", other),
    }
}

#[test]
fn relation_then_insert() {
    let mut d = PgOutputDecoder::new();
    match d.decode(&relation_payload()).unwrap() {
        PgOutputMessage::Relation(r) => {
            assert_eq!(r.rel_id, 41);
            assert_eq!(r.namespace, "public");
            assert_eq!(r.name, "test");
            assert_eq!(r.columns.len(), 2);
            assert_eq!(r.columns[0].name, "id");
            assert_eq!(r.columns[0].flags, 1);
            assert_eq!(r.columns[0].type_id, 23);
            assert_eq!(r.columns[0].type_modifier, -1);
            assert_eq!(r.columns[1].name, "val");
            assert_eq!(r.columns[1].type_id, 25);
        }
        other => panic!("expected Relation, got {:?}", other),
    }
    match d.decode(&insert_payload()).unwrap() {
        PgOutputMessage::Insert(i) => {
            assert_eq!(i.rel_id, 41);
            assert_eq!(
                i.tuple,
                vec![
                    TupleValue::Present(b"1".to_vec()),
                    TupleValue::Present(b"hello".to_vec())
                ]
            );
        }
        other => panic!("expected Insert, got {:?}", other),
    }
    assert!(d.get_relation(41).is_some());
    assert!(d.get_relation(42).is_none());
}

#[test]
fn update_with_full_replica_identity() {
    let mut d = PgOutputDecoder::new();
    d.decode(&relation_payload()).unwrap();
    let mut payload = vec![0x55, 0x00, 0x00, 0x00, 0x29, 0x4F];
    payload.extend_from_slice(&[
        0x00, 0x02, 0x74, 0x00, 0x00, 0x00, 0x01, 0x31, 0x74, 0x00, 0x00, 0x00, 0x05, 0x68, 0x65,
        0x6C, 0x6C, 0x6F,
    ]);
    payload.push(0x4E);
    payload.extend_from_slice(&[
        0x00, 0x02, 0x74, 0x00, 0x00, 0x00, 0x01, 0x31, 0x74, 0x00, 0x00, 0x00, 0x05, 0x77, 0x6F,
        0x72, 0x6C, 0x64,
    ]);
    match d.decode(&payload).unwrap() {
        PgOutputMessage::Update(u) => {
            assert_eq!(u.rel_id, 41);
            assert_eq!(
                u.old_tuple,
                Some(vec![
                    TupleValue::Present(b"1".to_vec()),
                    TupleValue::Present(b"hello".to_vec())
                ])
            );
            assert_eq!(
                u.new_tuple,
                vec![
                    TupleValue::Present(b"1".to_vec()),
                    TupleValue::Present(b"world".to_vec())
                ]
            );
        }
        other => panic!("expected Update, got {:?}", other),
    }
}

#[test]
fn delete_key_only() {
    let mut d = PgOutputDecoder::new();
    d.decode(&relation_payload()).unwrap();
    let payload = vec![
        0x44, 0x00, 0x00, 0x00, 0x29, 0x4B, 0x00, 0x02, 0x74, 0x00, 0x00, 0x00, 0x01, 0x31, 0x6E,
    ];
    match d.decode(&payload).unwrap() {
        PgOutputMessage::Delete(del) => {
            assert_eq!(del.rel_id, 41);
            assert_eq!(
                del.old_tuple,
                vec![TupleValue::Present(b"1".to_vec()), TupleValue::Null]
            );
        }
        other => panic!("expected Delete, got {:?}", other),
    }
}

#[test]
fn tuple_preserves_null_toast_present() {
    let mut d = PgOutputDecoder::new();
    // two-column tuple: NULL, unchanged TOAST; then one Present column
    let payload = vec![
        0x49, 0x00, 0x00, 0x00, 0x29, 0x4E, 0x00, 0x03, 0x6E, 0x75, 0x74, 0x00, 0x00, 0x00, 0x02,
        0x68, 0x69,
    ];
    match d.decode(&payload).unwrap() {
        PgOutputMessage::Insert(i) => {
            assert_eq!(
                i.tuple,
                vec![
                    TupleValue::Null,
                    TupleValue::UnchangedToast,
                    TupleValue::Present(b"hi".to_vec())
                ]
            );
        }
        other => panic!("expected Insert, got {:?}", other),
    }
}

#[test]
fn truncate_and_type_and_origin() {
    let mut d = PgOutputDecoder::new();
    let payload = vec![
        0x54, 0x00, 0x00, 0x00, 0x02, 0x03, 0x00, 0x00, 0x00, 0x29, 0x00, 0x00, 0x00, 0x2A,
    ];
    match d.decode(&payload).unwrap() {
        PgOutputMessage::Truncate(t) => {
            assert_eq!(t.options, 3);
            assert_eq!(t.rel_ids, vec![41, 42]);
        }
        other => panic!("expected Truncate, got {:?}", other),
    }
    let payload = vec![
        0x59, 0x00, 0x00, 0x00, 0x10, 0x70, 0x75, 0x62, 0x6C, 0x69, 0x63, 0x00, 0x6D, 0x79, 0x74,
        0x79, 0x70, 0x65, 0x00,
    ];
    match d.decode(&payload).unwrap() {
        PgOutputMessage::Type(t) => {
            assert_eq!(t.type_id, 16);
            assert_eq!(t.namespace, "public");
            assert_eq!(t.name, "mytype");
        }
        other => panic!("expected Type, got {:?}", other),
    }
    let payload = vec![
        0x4F, 0x00, 0x00, 0x00, 0x00, 0x00, 0x00, 0x01, 0x00, 0x6F, 0x72, 0x69, 0x67, 0x00,
    ];
    match d.decode(&payload).unwrap() {
        PgOutputMessage::Origin(o) => {
            assert_eq!(o.lsn, 256);
            assert_eq!(o.name, "orig");
        }
        other => panic!("expected Origin, got {:?}", other),
    }
}

#[test]
fn logical_message_payload() {
    let mut d = PgOutputDecoder::new();
    let payload = vec![
        0x4D, 0x01, 0x00, 0x00, 0x00, 0x00, 0x00, 0x00, 0x00, 0x09, 0x70, 0x66, 0x78, 0x00, 0x00,
        0x00, 0x00, 0x03, 0x61, 0x62, 0x63,
    ];
    match d.decode(&payload).unwrap() {
        PgOutputMessage::Message(m) => {
            assert!(m.transactional);
            assert_eq!(m.lsn, 9);
            assert_eq!(m.prefix, "pfx");
            assert_eq!(m.content, b"abc".to_vec());
        }
        other => panic!("expected Message, got {:?}", other),
    }
}

#[test]
fn decode_error_variants() {
    let mut d = PgOutputDecoder::new();
    assert_eq!(d.decode(&[]).unwrap_err(), DecodeError::TruncatedFrame);
    assert_eq!(d.decode(&[0x5A]).unwrap_err(), DecodeError::UnknownTag(0x5A));
    assert_eq!(
        d.decode(&[0x42, 0x00]).unwrap_err(),
        DecodeError::TruncatedFrame
    );
    // insert whose tuple sentinel is 'K' instead of 'N'
    assert_eq!(
        d.decode(&[0x49, 0, 0, 0, 0x29, 0x4B]).unwrap_err(),
        DecodeError::ExpectedNewTuple(0x4B)
    );
    // update with an unknown leading sentinel
    assert_eq!(
        d.decode(&[0x55, 0, 0, 0, 0x29, 0x58]).unwrap_err(),
        DecodeError::BadTupleSentinel(0x58)
    );
    // delete with a new-tuple sentinel
    assert_eq!(
        d.decode(&[0x44, 0, 0, 0, 0x29, 0x4E]).unwrap_err(),
        DecodeError::BadTupleSentinel(0x4E)
    );
    // update whose inter-tuple byte is not the new-tuple sentinel
    let mut payload = vec![0x55, 0, 0, 0, 0x29, 0x4F];
    payload.extend_from_slice(&[0x00, 0x01, 0x74, 0x00, 0x00, 0x00, 0x01, 0x31]);
    payload.push(0x58);
    payload.extend_from_slice(&[0x00, 0x01, 0x74, 0x00, 0x00, 0x00, 0x01, 0x32]);
    assert_eq!(
        d.decode(&payload).unwrap_err(),
        DecodeError::BadTupleSentinel(0x58)
    );
    // tuple column tagged 'x'
    assert_eq!(
        d.decode(&[0x49, 0, 0, 0, 0x29, 0x4E, 0x00, 0x01, 0x78])
            .unwrap_err(),
        DecodeError::BadColumnTag(0x78)
    );
    // relation whose namespace never terminates
    assert_eq!(
        d.decode(&[0x52, 0, 0, 0, 0x29, 0x70, 0x75]).unwrap_err(),
        DecodeError::UnterminatedCstr
    );
    // origin whose name is not UTF-8
    assert_eq!(
        d.decode(&[0x4F, 0, 0, 0, 0, 0, 0, 0, 0, 0xFF, 0xFE, 0x00])
            .unwrap_err(),
        DecodeError::InvalidUtf8
    );
}
