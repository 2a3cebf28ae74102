use pgoutput_decoder::utils::{build_connection_string, ExponentialBackoff};
use pgoutput_decoder::wire::{
    build_copy_data_message, build_password_message, build_query_message,
    build_start_replication_command, build_startup_message, parse_frame_header,
};

#[test]
fn connection_string_escapes_quotes() {
    assert_eq!(
        build_connection_string("localhost", "mydb", 5432, "user", "pa'ss"),
        "host='localhost' port='5432' dbname='mydb' user='user' password='pa\\'ss'"
    );
    assert_eq!(
        build_connection_string("h", "d", 1, "u", ""),
        "host='h' port='1' dbname='d' user='u' password=''"
    );
}

#[test]
fn backoff_doubles_to_cap_and_resets() {
    let mut b = ExponentialBackoff::new();
    assert_eq!(b.current_delay_ms, 100);
    assert_eq!(b.attempts, 0);
    let mut expected = 100u64;
    for i in 1..=12 {
        b.advance();
        expected = (expected * 2).min(30000);
        assert_eq!(b.current_delay_ms, expected, "attempt {}", i);
        assert_eq!(b.attempts, i);
    }
    assert_eq!(b.current_delay_ms, 30000);
    b.advance();
    assert_eq!(b.current_delay_ms, 30000);
    b.reset();
    assert_eq!(b.current_delay_ms, 100);
    assert_eq!(b.attempts, 0);
}

#[test]
fn startup_message_layout() {
    let m = build_startup_message("alice", "orders");
    // length counts the whole packet
    assert_eq!(m.len(), u32::from_be_bytes([m[0], m[1], m[2], m[3]]) as usize);
    assert_eq!(&m[4..8], &196608u32.to_be_bytes());
    let body = &m[8..];
    let expected = b"user\0alice\0database\0orders\0replication\0database\0\0";
    assert_eq!(body, expected);
}

#[test]
fn password_and_query_messages() {
    let p = build_password_message("s3cret");
    assert_eq!(p[0], b'p');
    assert_eq!(&p[1..5], &11u32.to_be_bytes());
    assert_eq!(&p[5..11], b"s3cret");
    assert_eq!(p[11], 0);

    let q = build_query_message("SELECT 1");
    assert_eq!(q[0], b'Q');
    assert_eq!(&q[1..5], &13u32.to_be_bytes());
    assert_eq!(&q[5..13], b"SELECT 1");
    assert_eq!(q[13], 0);
}

#[test]
fn copy_data_message_and_header() {
    let m = build_copy_data_message(b"xyz");
    assert_eq!(m[0], b'd');
    assert_eq!(&m[1..5], &7u32.to_be_bytes());
    assert_eq!(&m[5..], b"xyz");
    let (tag, len) = parse_frame_header(&m).unwrap();
    assert_eq!(tag, b'd');
    assert_eq!(len, 7);
    assert!(parse_frame_header(&m[..4]).is_err());
}

#[test]
fn start_replication_command_text() {
    assert_eq!(
        build_start_replication_command("myslot", "mypub", 0x16B3C000),
        "START_REPLICATION SLOT myslot LOGICAL 0/16B3C000 (proto_version '1', publication_names 'mypub')"
    );
}
