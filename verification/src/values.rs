//! Conversion of decoded column bytes into host-independent typed values,
//! keyed by the column's type oid. Numeric text is parsed exactly as the
//! platform integer parser does (sign, digits, range check), with the
//! lossy zero default the stream consumer expects; floating-point and
//! arbitrary-precision columns keep their text, for the host layer to
//! interpret.

use vstd::prelude::*;

use crate::reader::{string_from_utf8, utf8_decoding};

verus! {

/// `serde_json::Value` carried opaquely: parsed JSON columns hand the
/// structured value through to the host layer.
#[verifier::external_type_specification]
#[verifier::external_body]
pub struct ExJsonValue(serde_json::Value);

/// A converted column value.
pub enum PgValue {
    /// SQL NULL (also an unchanged out-of-line value, which the payload
    /// omits).
    Null,
    Bool(bool),
    Int(i64),
    Text(String),
    /// Numeric or floating-point text, kept verbatim.
    Numeric(String),
    Bytes(Vec<u8>),
    /// A JSON column that parsed.
    Json(serde_json::Value),
    /// An array column: elements are `Text` or `Null`.
    Array(Vec<PgValue>),
}

/// Whether text parses as JSON: decided by the JSON parser alone, as a
/// function of the text.
pub uninterp spec fn json_parse_ok(s: Seq<char>) -> bool;

/// Relies on `serde_json::from_str::<Value>`: returns the parsed document
/// exactly when the text is valid JSON.
#[verifier::external_body]
fn parse_json_value(s: &str) -> (r: Option<serde_json::Value>)
    ensures
        r is Some <==> json_parse_ok(s@),
{
    serde_json::from_str::<serde_json::Value>(s).ok()
}

/// The value of one hexadecimal digit byte, `-1` where invalid.
pub open spec fn hex_byte_val(b: u8) -> int {
    if 48 <= b <= 57 {
        b - 48
    } else if 65 <= b <= 70 {
        b - 55
    } else if 97 <= b <= 102 {
        b - 87
    } else {
        -1
    }
}

/// What decoding a hexadecimal byte string yields: defined exactly when
/// the length is even and every byte is a digit of either case.
pub open spec fn spec_hex_decode(s: Seq<u8>) -> Option<Seq<u8>> {
    if s.len() % 2 != 0 {
        None
    } else if exists|i: int| 0 <= i < s.len() && hex_byte_val(#[trigger] s[i]) < 0 {
        None
    } else {
        Some(
            Seq::new(
                (s.len() / 2) as nat,
                |i: int| (hex_byte_val(s[2 * i]) * 16 + hex_byte_val(s[2 * i + 1])) as u8,
            ),
        )
    }
}

/// Relies on `hex::decode`: pairs of hexadecimal digits, either case,
/// become bytes; an odd length or a non-digit is an error.
#[verifier::external_body]
fn hex_decode(data: &Vec<u8>) -> (r: Option<Vec<u8>>)
    ensures
        (match r {
            Some(v) => spec_hex_decode(data@) == Some(v@),
            None => spec_hex_decode(data@) is None,
        }),
{
    hex::decode(data).ok()
}

pub open spec fn is_dec_digit(b: u8) -> bool {
    48 <= b <= 57
}

/// Every byte of `s` is a decimal digit.
pub open spec fn all_dec_digits(s: Seq<u8>) -> bool {
    forall|i: int| 0 <= i < s.len() ==> is_dec_digit(#[trigger] s[i])
}

/// The value of a run of decimal digit bytes.
pub open spec fn dec_digits_val(s: Seq<u8>) -> int
    decreases s.len(),
{
    if s.len() == 0 {
        0
    } else {
        dec_digits_val(s.drop_last()) * 10 + (s.last() - 48)
    }
}

/// What integer parsing yields: an optional sign, then one or more digits,
/// nothing else, and a value within `[lo, hi]`.
pub open spec fn spec_parse_int(s: Seq<u8>, lo: int, hi: int) -> Option<int> {
    let ds = if s.len() > 0 && (s[0] == 43 || s[0] == 45) {
        s.subrange(1, s.len() as int)
    } else {
        s
    };
    let neg = s.len() > 0 && s[0] == 45;
    if ds.len() == 0 || !all_dec_digits(ds) {
        None
    } else {
        let m = dec_digits_val(ds);
        let v = if neg {
            -m
        } else {
            m
        };
        if lo <= v <= hi {
            Some(v)
        } else {
            None
        }
    }
}

proof fn lemma_dec_digits_val_nonneg(s: Seq<u8>)
    requires
        forall|i: int| 0 <= i < s.len() ==> is_dec_digit(#[trigger] s[i]),
    ensures
        dec_digits_val(s) >= 0,
    decreases s.len(),
{
    if s.len() > 0 {
        lemma_dec_digits_val_nonneg(s.drop_last());
    }
}

/// Appending digits never shrinks the value.
proof fn lemma_dec_prefix_bound(s: Seq<u8>, j: int)
    requires
        forall|i: int| 0 <= i < s.len() ==> is_dec_digit(#[trigger] s[i]),
        0 <= j <= s.len(),
    ensures
        dec_digits_val(s.take(j)) <= dec_digits_val(s),
    decreases s.len() - j,
{
    if j < s.len() {
        lemma_dec_prefix_bound(s, j + 1);
        let a = s.take(j);
        let b = s.take(j + 1);
        assert(b.drop_last() =~= a);
        assert(b.last() == s[j]);
        lemma_dec_digits_val_nonneg(a);
        assert(dec_digits_val(b) == dec_digits_val(a) * 10 + (s[j] - 48));
    } else {
        assert(s.take(j) =~= s);
    }
}

/// Parses signed decimal text within `[lo, hi]`, as the platform integer
/// parser does: `None` on an empty run, a stray byte, or overflow.
#[verifier::loop_isolation(false)]
fn parse_int_bytes(b: &[u8], lo: i64, hi: i64) -> (r: Option<i64>)
    requires
        lo <= 0 <= hi,
    ensures
        (match r {
            Some(v) => spec_parse_int(b@, lo as int, hi as int) == Some(v as int),
            None => spec_parse_int(b@, lo as int, hi as int) is None,
        }),
{
    let n = b.len();
    let mut start: usize = 0;
    let mut neg = false;
    if n > 0 && (b[0] == 43 || b[0] == 45) {
        start = 1;
        neg = b[0] == 45;
    }
    let ghost ds = if b@.len() > 0 && (b@[0] == 43 || b@[0] == 45) {
        b@.subrange(1, b@.len() as int)
    } else {
        b@
    };
    assert(ds.len() == n - start);
    assert(forall|i: int| 0 <= i < ds.len() ==> ds[i] == #[trigger] b@[start + i]);
    if start == n {
        return None;
    }
    let mag_limit: u64 = if neg {
        if lo == i64::MIN {
            0x8000000000000000
        } else {
            (-lo) as u64
        }
    } else {
        hi as u64
    };
    let mut acc: u64 = 0;
    let mut i: usize = start;
    while i < n
        invariant
            start <= i <= n,
            forall|j: int| 0 <= j < i - start ==> is_dec_digit(#[trigger] ds[j]),
            acc as int == dec_digits_val(ds.take(i - start)),
            acc <= mag_limit,
        decreases n - i,
    {
        let c = b[i];
        if !(48 <= c && c <= 57) {
            proof {
                assert(ds[i - start] == c);
                assert(!is_dec_digit(ds[i - start]));
                assert(!all_dec_digits(ds));
                assert(spec_parse_int(b@, lo as int, hi as int) is None);
            }
            return None;
        }
        let d: u64 = (c - 48) as u64;
        assert(is_dec_digit(ds[i - start]));
        proof {
            assert(ds.take(i - start + 1).drop_last() =~= ds.take(i - start));
            assert(ds.take(i - start + 1).last() == ds[i - start]);
        }
        if acc > mag_limit / 10 || (acc == mag_limit / 10 && d > mag_limit % 10) {
            proof {
                vstd::arithmetic::div_mod::lemma_fundamental_div_mod(mag_limit as int, 10);
                assert((acc as int) * 10 + d as int > mag_limit) by (nonlinear_arith)
                    requires
                        acc > mag_limit / 10 || (acc == mag_limit / 10 && d > mag_limit % 10),
                        mag_limit == (mag_limit / 10) * 10 + mag_limit % 10,
                        0 <= mag_limit % 10 < 10,
                        d >= 0,
                ;
                if all_dec_digits(ds) {
                    lemma_dec_prefix_bound(ds, i - start + 1);
                    assert(dec_digits_val(ds) > mag_limit);
                    assert(mag_limit as int == (if neg {
                        -(lo as int)
                    } else {
                        hi as int
                    }));
                    assert(spec_parse_int(b@, lo as int, hi as int) is None);
                } else {
                    assert(spec_parse_int(b@, lo as int, hi as int) is None);
                }
            }
            return None;
        }
        proof {
            vstd::arithmetic::div_mod::lemma_fundamental_div_mod(mag_limit as int, 10);
            assert((acc as int) * 10 + d as int <= mag_limit) by (nonlinear_arith)
                requires
                    acc < mag_limit / 10 || (acc == mag_limit / 10 && d <= mag_limit % 10),
                    mag_limit == (mag_limit / 10) * 10 + mag_limit % 10,
                    0 <= mag_limit % 10 < 10,
                    0 <= d < 10,
            ;
        }
        acc = acc * 10 + d;
        i = i + 1;
    }
    proof {
        assert(ds.take(n - start) =~= ds);
        lemma_dec_digits_val_nonneg(ds);
    }
    if neg {
        if acc == 0x8000000000000000 {
            Some(i64::MIN)
        } else {
            Some(-(acc as i64))
        }
    } else {
        Some(acc as i64)
    }
}

/// Boolean text: `t`, `true` or `1` is true, anything else false.
pub open spec fn spec_pg_bool(b: Seq<u8>) -> bool {
    b =~= seq![116u8] || b =~= seq![116u8, 114u8, 117u8, 101u8] || b =~= seq![49u8]
}

fn pg_bool(b: &[u8]) -> (r: bool)
    ensures
        r == spec_pg_bool(b@),
{
    if b.len() == 1 {
        b[0] == 116 || b[0] == 49
    } else if b.len() == 4 {
        b[0] == 116 && b[1] == 114 && b[2] == 117 && b[3] == 101
    } else {
        false
    }
}

/// The text a byte column converts to: its UTF-8 decoding, or empty where
/// the bytes are not valid UTF-8.
pub open spec fn text_of(b: Seq<u8>) -> Seq<char> {
    match utf8_decoding(b) {
        Some(cs) => cs,
        None => Seq::empty(),
    }
}

fn to_text(b: &[u8]) -> (r: String)
    ensures
        r@ == text_of(b@),
{
    let mut v: Vec<u8> = Vec::new();
    let mut i: usize = 0;
    while i < b.len()
        invariant
            i <= b@.len(),
            v@ =~= b@.take(i as int),
        decreases b@.len() - i,
    {
        v.push(b[i]);
        i = i + 1;
    }
    proof {
        assert(v@ =~= b@);
    }
    match string_from_utf8(v) {
        Some(s) => s,
        None => String::new(),
    }
}

/// Copies `b[from..to]`.
fn copy_range(b: &[u8], from: usize, to: usize) -> (r: Vec<u8>)
    requires
        from <= to <= b@.len(),
    ensures
        r@ == b@.subrange(from as int, to as int),
{
    let mut v: Vec<u8> = Vec::new();
    let mut i: usize = from;
    while i < to
        invariant
            from <= i <= to <= b@.len(),
            v@ =~= b@.subrange(from as int, i as int),
        decreases to - i,
    {
        v.push(b[i]);
        i = i + 1;
        proof {
            assert(v@ =~= b@.subrange(from as int, i as int));
        }
    }
    v
}

/// ASCII whitespace, the set array-element trimming removes. The server's
/// array text pads elements with ASCII spaces only, so trimming is kept
/// byte-level here; whitespace beyond ASCII inside an element is content
/// and stays.
pub open spec fn is_ascii_ws(b: u8) -> bool {
    b == 32 || b == 9 || b == 10 || b == 12 || b == 13
}

/// Leading ASCII whitespace removed.
pub open spec fn trim_front(e: Seq<u8>) -> Seq<u8>
    decreases e.len(),
{
    if e.len() > 0 && is_ascii_ws(e.first()) {
        trim_front(e.drop_first())
    } else {
        e
    }
}

/// Trailing ASCII whitespace removed.
pub open spec fn trim_back(e: Seq<u8>) -> Seq<u8>
    decreases e.len(),
{
    if e.len() > 0 && is_ascii_ws(e.last()) {
        trim_back(e.drop_last())
    } else {
        e
    }
}

pub open spec fn trimmed(e: Seq<u8>) -> Seq<u8> {
    trim_back(trim_front(e))
}

/// How one array element reads: trimmed, `NULL` is a null, an enclosing
/// quote pair is stripped, the rest is text.
pub open spec fn elem_matches(v: PgValue, e: Seq<u8>) -> bool {
    let t = trimmed(e);
    if t == seq![78u8, 85u8, 76u8, 76u8] {
        v is Null
    } else {
        let inner = if t.len() >= 2 && t[0] == 34 && t[t.len() - 1] == 34 {
            t.subrange(1, t.len() - 1)
        } else {
            t
        };
        v matches PgValue::Text(s) && s@ == text_of(inner)
    }
}

/// The comma-separated pieces of `s` from position `i`, with `cur` the
/// piece read so far.
pub open spec fn spec_split(s: Seq<u8>, i: int, cur: Seq<u8>) -> Seq<Seq<u8>>
    recommends
        0 <= i <= s.len(),
    decreases s.len() - i,
{
    if i < 0 || i >= s.len() {
        seq![cur]
    } else if s[i] == 44 {
        seq![cur] + spec_split(s, i + 1, Seq::empty())
    } else {
        spec_split(s, i + 1, cur.push(s[i]))
    }
}

/// How an array column reads: braces around comma-separated elements;
/// without braces (or without valid UTF-8) the fallback the text layer
/// provides.
pub open spec fn array_matches(v: PgValue, b: Seq<u8>) -> bool {
    match utf8_decoding(b) {
        None => v matches PgValue::Array(items) && items@.len() == 0,
        Some(_) => {
            if b.len() >= 2 && b[0] == 123 && b[b.len() - 1] == 125 {
                let inner = b.subrange(1, b.len() - 1);
                if inner.len() == 0 {
                    v matches PgValue::Array(items) && items@.len() == 0
                } else {
                    v matches PgValue::Array(items) && {
                        let es = spec_split(inner, 0, Seq::empty());
                        items@.len() == es.len() && forall|k: int|
                            0 <= k < es.len() ==> elem_matches(#[trigger] items@[k], es[k])
                    }
                }
            } else {
                v matches PgValue::Text(s) && s@ == text_of(b)
            }
        },
    }
}

/// Converts one element of an array column.
#[verifier::loop_isolation(false)]
fn convert_array_elem(e: &Vec<u8>) -> (r: PgValue)
    ensures
        elem_matches(r, e@),
{
    let n = e.len();
    proof {
        assert(e@.subrange(0, n as int) =~= e@);
    }
    let mut i: usize = 0;
    while i < n && (e[i] == 32 || e[i] == 9 || e[i] == 10 || e[i] == 12 || e[i] == 13)
        invariant
            0 <= i <= n,
            trim_front(e@) == trim_front(e@.subrange(i as int, n as int)),
        decreases n - i,
    {
        proof {
            assert(e@.subrange(i as int, n as int).drop_first() =~= e@.subrange(
                i as int + 1,
                n as int,
            ));
        }
        i = i + 1;
    }
    proof {
        assert(trim_front(e@) =~= e@.subrange(i as int, n as int));
    }
    let mut j: usize = n;
    while j > i && (e[j - 1] == 32 || e[j - 1] == 9 || e[j - 1] == 10 || e[j - 1] == 12 || e[j - 1]
        == 13)
        invariant
            i <= j <= n,
            trim_back(e@.subrange(i as int, n as int)) == trim_back(
                e@.subrange(i as int, j as int),
            ),
        decreases j,
    {
        proof {
            assert(e@.subrange(i as int, j as int).drop_last() =~= e@.subrange(
                i as int,
                j as int - 1,
            ));
        }
        j = j - 1;
    }
    proof {
        assert(trimmed(e@) =~= e@.subrange(i as int, j as int));
    }
    let t = copy_range(e, i, j);
    if t.len() == 4 && t[0] == 78 && t[1] == 85 && t[2] == 76 && t[3] == 76 {
        proof {
            assert(t@ =~= seq![78u8, 85u8, 76u8, 76u8]);
        }
        return PgValue::Null;
    }
    assert(t@ != seq![78u8, 85u8, 76u8, 76u8]);
    if t.len() >= 2 && t[0] == 34 && t[t.len() - 1] == 34 {
        let inner = copy_range(&t, 1, t.len() - 1);
        PgValue::Text(to_text(inner.as_slice()))
    } else {
        PgValue::Text(to_text(t.as_slice()))
    }
}

/// Converts an array column.
#[verifier::loop_isolation(false)]
fn convert_array(b: &[u8]) -> (r: PgValue)
    ensures
        array_matches(r, b@),
{
    let whole = copy_range(b, 0, b.len());
    proof {
        assert(whole@ =~= b@);
    }
    match string_from_utf8(whole) {
        Some(_) => {},
        None => {
            return PgValue::Array(Vec::new());
        },
    }
    if !(b.len() >= 2 && b[0] == 123 && b[b.len() - 1] == 125) {
        return PgValue::Text(to_text(b));
    }
    let inner = copy_range(b, 1, b.len() - 1);
    let ghost sin = b@.subrange(1, b@.len() - 1);
    if inner.len() == 0 {
        return PgValue::Array(Vec::new());
    }
    let mut items: Vec<PgValue> = Vec::new();
    let mut cur: Vec<u8> = Vec::new();
    let ghost mut done: Seq<Seq<u8>> = Seq::empty();
    let mut i: usize = 0;
    while i < inner.len()
        invariant
            0 <= i <= sin.len(),
            inner@ == sin,
            items@.len() == done.len(),
            forall|k: int| 0 <= k < done.len() ==> elem_matches(#[trigger] items@[k], done[k]),
            spec_split(sin, 0, Seq::empty()) == done + spec_split(sin, i as int, cur@),
        decreases sin.len() - i,
    {
        let c = inner[i];
        if c == 44 {
            let item = convert_array_elem(&cur);
            items.push(item);
            proof {
                assert(spec_split(sin, i as int, cur@) == seq![cur@] + spec_split(
                    sin,
                    i as int + 1,
                    Seq::empty(),
                ));
                assert(done + (seq![cur@] + spec_split(sin, i as int + 1, Seq::empty()))
                    =~= (done.push(cur@)) + spec_split(sin, i as int + 1, Seq::empty()));
                done = done.push(cur@);
            }
            cur = Vec::new();
        } else {
            cur.push(c);
        }
        i = i + 1;
    }
    let item = convert_array_elem(&cur);
    items.push(item);
    proof {
        assert(spec_split(sin, sin.len() as int, cur@) == seq![cur@]);
        assert(done + seq![cur@] =~= done.push(cur@));
        done = done.push(cur@);
        assert(spec_split(sin, 0, Seq::empty()) == done);
    }
    PgValue::Array(items)
}

/// How a JSON column reads: valid UTF-8 that parses becomes a structured
/// document; text that does not parse stays text; invalid UTF-8 falls back
/// to an empty document.
pub open spec fn json_matches(v: PgValue, b: Seq<u8>) -> bool {
    match utf8_decoding(b) {
        Some(cs) => if json_parse_ok(cs) {
            v is Json
        } else {
            v matches PgValue::Text(s) && s@ == cs
        },
        None => if json_parse_ok("{}"@) {
            v is Json
        } else {
            v matches PgValue::Text(s) && s@ == "{}"@
        },
    }
}

fn convert_json_bytes(b: &[u8]) -> (r: PgValue)
    ensures
        json_matches(r, b@),
{
    let whole = copy_range(b, 0, b.len());
    proof {
        assert(whole@ =~= b@);
    }
    let s = match string_from_utf8(whole) {
        Some(s) => s,
        None => {
            let fallback = "{}";
            let owned = fallback.to_owned();
            return match parse_json_value(fallback) {
                Some(v) => PgValue::Json(v),
                None => PgValue::Text(owned),
            };
        },
    };
    match parse_json_value(s.as_str()) {
        Some(v) => PgValue::Json(v),
        None => PgValue::Text(s),
    }
}

/// How a bytea column reads: a `\x` prefix followed by hexadecimal digits
/// decodes; anything else keeps the raw bytes.
pub open spec fn bytea_matches(v: PgValue, b: Seq<u8>) -> bool {
    if b.len() >= 2 && b[0] == 92 && b[1] == 120 {
        match spec_hex_decode(b.subrange(2, b.len() as int)) {
            Some(d) => v matches PgValue::Bytes(x) && x@ == d,
            None => v matches PgValue::Bytes(x) && x@ == b,
        }
    } else {
        v matches PgValue::Bytes(x) && x@ == b
    }
}

fn convert_bytea(b: &[u8]) -> (r: PgValue)
    ensures
        bytea_matches(r, b@),
{
    if b.len() >= 2 && b[0] == 92 && b[1] == 120 {
        let rest = copy_range(b, 2, b.len());
        match hex_decode(&rest) {
            Some(d) => PgValue::Bytes(d),
            None => {
                let whole = copy_range(b, 0, b.len());
                proof {
                    assert(whole@ =~= b@);
                }
                PgValue::Bytes(whole)
            },
        }
    } else {
        let whole = copy_range(b, 0, b.len());
        proof {
            assert(whole@ =~= b@);
        }
        PgValue::Bytes(whole)
    }
}

/// The parsed integer, or zero where the text is not an integer of the
/// range: the lossy default the stream consumer expects.
pub open spec fn int_or_zero(b: Seq<u8>, lo: int, hi: int) -> int {
    match spec_parse_int(b, lo, hi) {
        Some(v) => v,
        None => 0,
    }
}

/// How one column value reads under its type oid.
pub open spec fn pg_value_matches(v: PgValue, data: Option<Seq<u8>>, type_id: u32) -> bool {
    match data {
        None => v is Null,
        Some(b) => {
            if type_id == 16 {
                v == PgValue::Bool(spec_pg_bool(b))
            } else if type_id == 20 {
                v == PgValue::Int(int_or_zero(b, i64::MIN as int, i64::MAX as int) as i64)
            } else if type_id == 21 {
                v == PgValue::Int(int_or_zero(b, i16::MIN as int, i16::MAX as int) as i64)
            } else if type_id == 23 {
                v == PgValue::Int(int_or_zero(b, i32::MIN as int, i32::MAX as int) as i64)
            } else if type_id == 700 || type_id == 701 || type_id == 1700 {
                v matches PgValue::Numeric(s) && s@ == text_of(b)
            } else if type_id == 25 || type_id == 1042 || type_id == 1043 || type_id == 1082
                || type_id == 1083 || type_id == 1114 || type_id == 1184 || type_id == 2950 {
                v matches PgValue::Text(s) && s@ == text_of(b)
            } else if type_id == 114 || type_id == 3802 {
                json_matches(v, b)
            } else if type_id == 17 {
                bytea_matches(v, b)
            } else if 1000 <= type_id <= 1999 {
                array_matches(v, b)
            } else {
                v matches PgValue::Text(s) && s@ == text_of(b)
            }
        },
    }
}

/// Converts one column's bytes into a typed value, keyed by the column's
/// type oid. An absent column value is NULL; unknown oids read as text.
pub fn convert_pg_value(data: Option<&[u8]>, type_id: u32) -> (r: PgValue)
    ensures
        pg_value_matches(
            r,
            (match data {
                Some(b) => Some(b@),
                None => None,
            }),
            type_id,
        ),
{
    let b = match data {
        None => {
            return PgValue::Null;
        },
        Some(b) => b,
    };
    if type_id == 16 {
        PgValue::Bool(pg_bool(b))
    } else if type_id == 20 {
        let v = match parse_int_bytes(b, i64::MIN, i64::MAX) {
            Some(v) => v,
            None => 0,
        };
        PgValue::Int(v)
    } else if type_id == 21 {
        let v = match parse_int_bytes(b, i16::MIN as i64, i16::MAX as i64) {
            Some(v) => v,
            None => 0,
        };
        PgValue::Int(v)
    } else if type_id == 23 {
        let v = match parse_int_bytes(b, i32::MIN as i64, i32::MAX as i64) {
            Some(v) => v,
            None => 0,
        };
        PgValue::Int(v)
    } else if type_id == 700 || type_id == 701 || type_id == 1700 {
        PgValue::Numeric(to_text(b))
    } else if type_id == 25 || type_id == 1042 || type_id == 1043 || type_id == 1082 || type_id
        == 1083 || type_id == 1114 || type_id == 1184 || type_id == 2950 {
        PgValue::Text(to_text(b))
    } else if type_id == 114 || type_id == 3802 {
        convert_json_bytes(b)
    } else if type_id == 17 {
        convert_bytea(b)
    } else if 1000 <= type_id && type_id <= 1999 {
        convert_array(b)
    } else {
        PgValue::Text(to_text(b))
    }
}


} // verus!
