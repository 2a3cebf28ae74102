use pgoutput_decoder::errors::ConfigError;
use pgoutput_decoder::lsn::{format_lsn, parse_lsn};

#[test]
fn format_canonical_forms() {
    assert_eq!(format_lsn(0), "0/0");
    assert_eq!(format_lsn(0x16B3C000), "0/16B3C000");
    assert_eq!(format_lsn(0x0000000100000000), "1/0");
    assert_eq!(format_lsn(u64::MAX), "FFFFFFFF/FFFFFFFF");
    assert_eq!(format_lsn(0x00000AB000000123), "AB0/123");
}

#[test]
fn parse_canonical_forms() {
    assert_eq!(parse_lsn("0/0").unwrap(), 0);
    assert_eq!(parse_lsn("0/16B3C000").unwrap(), 0x16B3C000);
    assert_eq!(parse_lsn("1/0").unwrap(), 0x0000000100000000);
    assert_eq!(parse_lsn("FFFFFFFF/FFFFFFFF").unwrap(), u64::MAX);
}

#[test]
fn parse_accepts_lowercase_and_leading_zeros() {
    assert_eq!(parse_lsn("ab0/0").unwrap(), 0x00000AB000000000);
    assert_eq!(parse_lsn("016B3C000/0").unwrap(), 0x16B3C00000000000);
    assert_eq!(parse_lsn("0/000001").unwrap(), 1);
}

#[test]
fn parse_rejects_malformed_text() {
    for s in ["", "x", "1", "1/", "/1", "1/GG", "1//2", "100000000/0", "1/100000000", "1 /2"] {
        assert_eq!(parse_lsn(s).unwrap_err(), ConfigError::InvalidLsnText, "input {:?}", s);
    }
}

#[test]
fn round_trip_value_to_text() {
    for lsn in [0u64, 1, 0x1000, 0x16B3C000, 0xDEADBEEF00000001, u64::MAX] {
        assert_eq!(parse_lsn(&format_lsn(lsn)).unwrap(), lsn);
    }
}

#[test]
fn round_trip_text_to_value() {
    for s in ["0/0", "1/2", "AB0/123", "FFFFFFFF/FFFFFFFF", "0/16B3C000"] {
        assert_eq!(format_lsn(parse_lsn(s).unwrap()), s);
    }
}
