//! LSN (log sequence number) text handling: the canonical `X/Y` hexadecimal
//! form, with the high and low 32-bit halves printed in uppercase without
//! leading zeros. Formatting and parsing are each pinned to a specification
//! function, and proved inverse to one another.

use vstd::prelude::*;

use crate::errors::ConfigError;
use crate::reader::string_from_utf8;

verus! {

/// The character for one hexadecimal digit, uppercase.
pub open spec fn hex_digit_char(d: int) -> char
    recommends
        0 <= d < 16,
{
    if d < 10 {
        ((48 + d) as u8) as char
    } else {
        ((55 + d) as u8) as char
    }
}

/// Hexadecimal text of `v`, uppercase, no leading zeros (`"0"` for zero).
pub open spec fn spec_hex_text(v: int) -> Seq<char>
    recommends
        v >= 0,
    decreases v,
{
    if v < 16 {
        seq![hex_digit_char(v)]
    } else {
        spec_hex_text(v / 16).push(hex_digit_char(v % 16))
    }
}

/// The canonical text of an LSN: high half, `'/'`, low half.
pub open spec fn spec_lsn_text(v: int) -> Seq<char>
    recommends
        0 <= v < 0x10000000000000000,
{
    spec_hex_text(v / 0x100000000) + seq!['/'] + spec_hex_text(v % 0x100000000)
}

pub open spec fn is_hex_digit(c: char) -> bool {
    ('0' <= c && c <= '9') || ('A' <= c && c <= 'F') || ('a' <= c && c <= 'f')
}

/// The value of one hexadecimal digit character, either case.
pub open spec fn hex_char_val(c: char) -> int
    recommends
        is_hex_digit(c),
{
    if '0' <= c && c <= '9' {
        c as int - 48
    } else if 'A' <= c && c <= 'F' {
        c as int - 55
    } else {
        c as int - 87
    }
}

/// A non-empty run of hexadecimal digit characters.
pub open spec fn is_hex_seq(s: Seq<char>) -> bool {
    s.len() > 0 && forall|i: int| 0 <= i < s.len() ==> is_hex_digit(#[trigger] s[i])
}

/// The value of a run of hexadecimal digits.
pub open spec fn hex_seq_val(s: Seq<char>) -> int
    decreases s.len(),
{
    if s.len() == 0 {
        0
    } else {
        hex_seq_val(s.drop_last()) * 16 + hex_char_val(s.last())
    }
}

/// Index of the first `'/'` of `t` at or after `i`, if any.
pub open spec fn slash_pos(t: Seq<char>, i: int) -> Option<int>
    decreases t.len() - i,
{
    if i < 0 || i >= t.len() {
        None
    } else if t[i] == '/' {
        Some(i)
    } else {
        slash_pos(t, i + 1)
    }
}

/// What parsing LSN text yields: both halves must be non-empty hexadecimal
/// runs whose values fit in 32 bits.
pub open spec fn spec_parse_lsn(t: Seq<char>) -> Option<int> {
    match slash_pos(t, 0) {
        None => None,
        Some(k) => {
            let hi = t.take(k);
            let lo = t.subrange(k + 1, t.len() as int);
            if is_hex_seq(hi) && is_hex_seq(lo) && hex_seq_val(hi) < 0x100000000 && hex_seq_val(lo)
                < 0x100000000 {
                Some(hex_seq_val(hi) * 0x100000000 + hex_seq_val(lo))
            } else {
                None
            }
        },
    }
}

/// The ASCII byte for one hexadecimal digit, uppercase.
pub open spec fn hex_digit_byte(d: int) -> u8
    recommends
        0 <= d < 16,
{
    if d < 10 {
        (48 + d) as u8
    } else {
        (55 + d) as u8
    }
}

/// The ASCII bytes of the hexadecimal text of `v`.
pub open spec fn hex_bytes(v: int) -> Seq<u8>
    recommends
        v >= 0,
    decreases v,
{
    if v < 16 {
        seq![hex_digit_byte(v)]
    } else {
        hex_bytes(v / 16).push(hex_digit_byte(v % 16))
    }
}

/// `hex_bytes` spells `spec_hex_text` byte for byte, in ASCII.
proof fn lemma_hex_bytes_chars(v: int)
    requires
        v >= 0,
    ensures
        hex_bytes(v).len() == spec_hex_text(v).len(),
        forall|i: int|
            0 <= i < hex_bytes(v).len() ==> (#[trigger] hex_bytes(v)[i]) < 128 && (hex_bytes(
                v,
            )[i]) as char == spec_hex_text(v)[i],
    decreases v,
{
    if v < 16 {
    } else {
        lemma_hex_bytes_chars(v / 16);
        assert(hex_bytes(v) == hex_bytes(v / 16).push(hex_digit_byte(v % 16)));
        assert(spec_hex_text(v) == spec_hex_text(v / 16).push(hex_digit_char(v % 16)));
    }
}

/// Appends the uppercase hexadecimal text of `v`, as ASCII bytes.
fn push_hex(out: &mut Vec<u8>, v: u32)
    ensures
        final(out)@ == old(out)@ + hex_bytes(v as int),
    decreases v,
{
    if v < 16 {
        let d: u8 = if v < 10 {
            48 + (v as u8)
        } else {
            55 + (v as u8)
        };
        out.push(d);
        assert(final(out)@ =~= old(out)@ + hex_bytes(v as int));
    } else {
        push_hex(out, v / 16);
        let m = v % 16;
        let d: u8 = if m < 10 {
            48 + (m as u8)
        } else {
            55 + (m as u8)
        };
        out.push(d);
        assert(final(out)@ =~= old(out)@ + hex_bytes(v as int));
    }
}

/// Formats an LSN in its canonical `X/Y` text.
pub fn format_lsn(lsn: u64) -> (r: String)
    ensures
        r@ == spec_lsn_text(lsn as int),
{
    proof {
        assert(lsn / 0x100000000 < 0x100000000 && lsn % 0x100000000 < 0x100000000)
            by (nonlinear_arith);
    }
    let hi: u32 = (lsn / 0x100000000) as u32;
    let lo: u32 = (lsn % 0x100000000) as u32;
    let ghost hi_text = spec_hex_text(hi as int);
    let ghost lo_text = spec_hex_text(lo as int);
    let ghost target = hi_text + seq!['/'] + lo_text;
    let mut out: Vec<u8> = Vec::new();
    push_hex(&mut out, hi);
    out.push(47);
    push_hex(&mut out, lo);
    let ghost o = out@;
    proof {
        lemma_hex_bytes_chars(hi as int);
        lemma_hex_bytes_chars(lo as int);
        assert(o =~= hex_bytes(hi as int) + seq![47u8] + hex_bytes(lo as int));
        assert forall|i: int| 0 <= i < o.len() implies (#[trigger] o[i]) < 128 && (o[i]) as char
            == target[i] by {
            let a = hex_bytes(hi as int);
            let b = hex_bytes(lo as int);
            if i < a.len() {
                assert(o[i] == a[i]);
                assert(target[i] == hi_text[i]);
            } else if i == a.len() {
                assert(o[i] == 47);
                assert((47u8) as char == '/');
                assert(target[i] == '/');
            } else {
                assert(o[i] == b[i - a.len() - 1]);
                assert(target[i] == lo_text[i - a.len() - 1]);
            }
        }
    }
    let r = match string_from_utf8(out) {
        Some(s) => s,
        None => {
            proof {
                assert(false);
            }
            String::new()
        },
    };
    proof {
        assert(o.len() == target.len());
        assert forall|i: int| 0 <= i < target.len() implies r@[i] == target[i] by {
            assert(r@[i] == (o[i]) as char);
        }
        assert(r@ =~= target);
    }
    r
}

/// The value of every valid digit is in `[0, 16)`.
proof fn lemma_hex_char_val_bounds(c: char)
    requires
        is_hex_digit(c),
    ensures
        0 <= hex_char_val(c) < 16,
{
}

proof fn lemma_hex_seq_val_nonneg(s: Seq<char>)
    requires
        forall|i: int| 0 <= i < s.len() ==> is_hex_digit(#[trigger] s[i]),
    ensures
        hex_seq_val(s) >= 0,
    decreases s.len(),
{
    if s.len() > 0 {
        lemma_hex_seq_val_nonneg(s.drop_last());
        lemma_hex_char_val_bounds(s.last());
    }
}

/// Appending digits never shrinks the value: the value of a prefix is a
/// lower bound for the value of the whole run.
proof fn lemma_hex_seq_val_prefix_bound(s: Seq<char>, j: int)
    requires
        forall|i: int| 0 <= i < s.len() ==> is_hex_digit(#[trigger] s[i]),
        0 <= j <= s.len(),
    ensures
        hex_seq_val(s.take(j)) <= hex_seq_val(s),
    decreases s.len() - j,
{
    if j < s.len() {
        lemma_hex_seq_val_prefix_bound(s, j + 1);
        let a = s.take(j);
        let b = s.take(j + 1);
        assert(b.drop_last() =~= a);
        assert(b.last() == s[j]);
        lemma_hex_seq_val_nonneg(a);
        lemma_hex_char_val_bounds(s[j]);
        assert(hex_seq_val(b) == hex_seq_val(a) * 16 + hex_char_val(s[j]));
    } else {
        assert(s.take(j) =~= s);
    }
}

/// The text of a value is a valid digit run, contains no `'/'`, begins with
/// `'0'` only for zero itself, and evaluates back to the value.
proof fn lemma_hex_text_valid(v: int)
    requires
        v >= 0,
    ensures
        is_hex_seq(spec_hex_text(v)),
        hex_seq_val(spec_hex_text(v)) == v,
        forall|i: int|
            0 <= i < spec_hex_text(v).len() ==> #[trigger] spec_hex_text(v)[i] != '/',
        spec_hex_text(v)[0] == '0' <==> v == 0,
        forall|i: int|
            0 <= i < spec_hex_text(v).len() ==> !('a' <= #[trigger] spec_hex_text(v)[i] && spec_hex_text(
                v,
            )[i] <= 'f'),
    decreases v,
{
    if v < 16 {
        let t = spec_hex_text(v);
        assert(t.drop_last() =~= Seq::<char>::empty());
        assert(hex_seq_val(Seq::<char>::empty()) == 0);
        assert(hex_seq_val(t) == hex_char_val(hex_digit_char(v)));
    } else {
        lemma_hex_text_valid(v / 16);
        vstd::arithmetic::div_mod::lemma_fundamental_div_mod(v, 16);
        let t = spec_hex_text(v);
        let p = spec_hex_text(v / 16);
        assert(t == p.push(hex_digit_char(v % 16)));
        assert(t.drop_last() =~= p);
        assert(t.last() == hex_digit_char(v % 16));
        assert(hex_char_val(hex_digit_char(v % 16)) == v % 16);
        assert(hex_seq_val(t) == hex_seq_val(p) * 16 + (v % 16));
        assert(forall|i: int| 0 <= i < t.len() ==> t[i] == (if i < p.len() {
            p[i]
        } else {
            hex_digit_char(v % 16)
        }));
    }
}

/// The first slash of `a + "/" + b` stands right after `a` where `a` has no
/// slash; stated over positions from `i`.
proof fn lemma_slash_pos_concat(t: Seq<char>, k: int, i: int)
    requires
        0 <= i <= k < t.len(),
        t[k] == '/',
        forall|j: int| 0 <= j < k ==> #[trigger] t[j] != '/',
    ensures
        slash_pos(t, i) == Some(k),
    decreases t.len() - i,
{
    if i < k {
        lemma_slash_pos_concat(t, k, i + 1);
    }
}

/// Round trip from value to text and back: parsing the canonical text of any
/// 64-bit LSN yields that LSN again.
pub proof fn lemma_lsn_round_trip(lsn: u64)
    ensures
        spec_parse_lsn(spec_lsn_text(lsn as int)) == Some(lsn as int),
{
    let v = lsn as int;
    let hi = v / 0x100000000;
    let lo = v % 0x100000000;
    vstd::arithmetic::div_mod::lemma_fundamental_div_mod(v, 0x100000000);
    assert(0 <= hi < 0x100000000) by (nonlinear_arith)
        requires
            0 <= v < 0x10000000000000000,
            hi == v / 0x100000000,
    ;
    lemma_hex_text_valid(hi);
    lemma_hex_text_valid(lo);
    let a = spec_hex_text(hi);
    let b = spec_hex_text(lo);
    let t = a + seq!['/'] + b;
    let k = a.len() as int;
    assert(t[k] == '/');
    assert(forall|j: int| 0 <= j < k ==> #[trigger] t[j] != '/');
    lemma_slash_pos_concat(t, k, 0);
    assert(t.take(k) =~= a);
    assert(t.subrange(k + 1, t.len() as int) =~= b);
}

/// Uppercase canonical hexadecimal: digits only, no lowercase, and no
/// leading zero unless the run is `"0"` itself.
pub open spec fn is_canonical_hex(s: Seq<char>) -> bool {
    &&& is_hex_seq(s)
    &&& forall|i: int| 0 <= i < s.len() ==> !('a' <= #[trigger] s[i] && s[i] <= 'f')
    &&& (s.len() > 1 ==> s[0] != '0')
}

/// Canonical LSN text: two canonical halves around one `'/'`, each value
/// fitting in 32 bits.
pub open spec fn is_canonical_lsn_text(t: Seq<char>) -> bool {
    match slash_pos(t, 0) {
        None => false,
        Some(k) => {
            let hi = t.take(k);
            let lo = t.subrange(k + 1, t.len() as int);
            is_canonical_hex(hi) && is_canonical_hex(lo) && hex_seq_val(hi) < 0x100000000
                && hex_seq_val(lo) < 0x100000000 && slash_pos(t, k + 1) is None
        },
    }
}

/// A digit run that does not start with `'0'` has a positive value.
proof fn lemma_hex_seq_val_positive(s: Seq<char>)
    requires
        is_hex_seq(s),
        s[0] != '0',
    ensures
        hex_seq_val(s) >= 1,
    decreases s.len(),
{
    if s.len() == 1 {
        assert(s.drop_last() =~= Seq::<char>::empty());
        assert(hex_seq_val(Seq::<char>::empty()) == 0);
        assert(s.last() == s[0]);
        assert(hex_seq_val(s) == hex_char_val(s[0]));
        lemma_hex_char_val_bounds(s[0]);
        assert(hex_char_val(s[0]) >= 1);
    } else {
        let p = s.drop_last();
        assert(p[0] == s[0]);
        lemma_hex_seq_val_positive(p);
        lemma_hex_char_val_bounds(s.last());
        assert(hex_seq_val(s) == hex_seq_val(p) * 16 + hex_char_val(s.last()));
    }
}

/// Formatting the value of canonical hexadecimal text gives the same text.
proof fn lemma_canonical_hex_round_trip(s: Seq<char>)
    requires
        is_canonical_hex(s),
    ensures
        hex_seq_val(s) >= 0,
        spec_hex_text(hex_seq_val(s)) == s,
    decreases s.len(),
{
    lemma_hex_seq_val_nonneg(s);
    if s.len() == 1 {
        lemma_hex_char_val_bounds(s[0]);
        assert(s.drop_last() =~= Seq::<char>::empty());
        assert(hex_seq_val(Seq::<char>::empty()) == 0);
        assert(s.last() == s[0]);
        assert(hex_seq_val(s) == hex_char_val(s[0]));
        assert(hex_digit_char(hex_char_val(s[0])) == s[0]);
        assert(spec_hex_text(hex_seq_val(s)) =~= s);
    } else {
        let p = s.drop_last();
        let d = hex_char_val(s.last());
        assert(p[0] == s[0]);
        assert(forall|i: int| 0 <= i < p.len() ==> p[i] == #[trigger] s[i]);
        lemma_canonical_hex_round_trip(p);
        lemma_hex_seq_val_positive(p);
        lemma_hex_char_val_bounds(s.last());
        let v = hex_seq_val(s);
        let pv = hex_seq_val(p);
        assert(v == pv * 16 + d);
        assert(v >= 16) by (nonlinear_arith)
            requires
                pv >= 1,
                d >= 0,
                v == pv * 16 + d,
        ;
        vstd::arithmetic::div_mod::lemma_fundamental_div_mod_converse(v, 16, pv, d);
        assert(spec_hex_text(v) == spec_hex_text(pv).push(hex_digit_char(d)));
        assert(hex_digit_char(d) == s.last());
        assert(spec_hex_text(v) =~= s);
    }
}

/// Round trip from text to value and back: formatting the value parsed from
/// canonical LSN text gives the same text.
pub proof fn lemma_lsn_text_round_trip(t: Seq<char>)
    requires
        is_canonical_lsn_text(t),
    ensures
        spec_parse_lsn(t) matches Some(v) && spec_lsn_text(v) == t,
{
    let k = slash_pos(t, 0)->Some_0;
    lemma_slash_bound(t, 0, k);
    let hi = t.take(k);
    let lo = t.subrange(k + 1, t.len() as int);
    lemma_canonical_hex_round_trip(hi);
    lemma_canonical_hex_round_trip(lo);
    let hv = hex_seq_val(hi);
    let lv = hex_seq_val(lo);
    let v = hv * 0x100000000 + lv;
    vstd::arithmetic::div_mod::lemma_fundamental_div_mod_converse(v, 0x100000000, hv, lv);
    assert(spec_lsn_text(v) =~= t);
}

/// Parses LSN text of the `X/Y` hexadecimal form (either digit case is
/// accepted); every other string is rejected.
#[verifier::loop_isolation(false)]
pub fn parse_lsn(s: &str) -> (r: Result<u64, ConfigError>)
    ensures
        (match spec_parse_lsn(s@) {
            Some(v) => r matches Ok(x) && x as int == v,
            None => r == Err::<u64, ConfigError>(ConfigError::InvalidLsnText),
        }),
{
    broadcast use vstd::string::is_ascii_spec_bytes;

    if !s.is_ascii() {
        proof {
            lemma_parse_needs_ascii(s@);
        }
        return Err(ConfigError::InvalidLsnText);
    }
    let b = s.as_bytes();
    let n = b.len();
    let ghost t = s@;
    assert(b@.len() == t.len());
    assert(forall|i: int| 0 <= i < t.len() ==> b@[i] == (#[trigger] t[i]) as u8);
    assert(forall|i: int| 0 <= i < t.len() ==> (#[trigger] t[i]) as u8 as char == t[i]);
    let mut k: usize = 0;
    while k < n && b[k] != 47
        invariant
            0 <= k <= n,
            forall|j: int| 0 <= j < k ==> #[trigger] t[j] != '/',
        decreases n - k,
    {
        k = k + 1;
    }
    if k == n {
        proof {
            lemma_no_slash(t, 0);
        }
        return Err(ConfigError::InvalidLsnText);
    }
    assert(t[k as int] == '/');
    proof {
        lemma_slash_pos_concat(t, k as int, 0);
    }
    let ghost hi_text = t.take(k as int);
    let ghost lo_text = t.subrange(k as int + 1, t.len() as int);
    let hi = match parse_hex_run(b, 0, k, Ghost(hi_text)) {
        Some(v) => v,
        None => {
            return Err(ConfigError::InvalidLsnText);
        },
    };
    let lo = match parse_hex_run(b, k + 1, n, Ghost(lo_text)) {
        Some(v) => v,
        None => {
            return Err(ConfigError::InvalidLsnText);
        },
    };
    let r: u64 = (hi as u64) * 0x100000000 + (lo as u64);
    Ok(r)
}

/// A string whose characters are not all ASCII is not LSN text.
proof fn lemma_parse_needs_ascii(t: Seq<char>)
    requires
        !vstd::utf8::is_ascii_chars(t),
    ensures
        spec_parse_lsn(t) is None,
{
    let i = choose|i: int|
        0 <= i < t.len() && !('\0' <= #[trigger] t[i] && t[i] <= '\u{7f}');
    match slash_pos(t, 0) {
        None => {},
        Some(k) => {
            lemma_slash_bound(t, 0, k);
            let hi = t.take(k);
            let lo = t.subrange(k + 1, t.len() as int);
            if i < k {
                assert(hi[i] == t[i]);
                assert(!is_hex_digit(t[i]));
            } else if i == k {
                assert(t[k] == '/');
            } else {
                assert(lo[i - k - 1] == t[i]);
                assert(!is_hex_digit(t[i]));
            }
        },
    }
}

/// Where `slash_pos` finds a slash, it lies in range and earlier positions
/// hold none.
proof fn lemma_slash_bound(t: Seq<char>, i: int, k: int)
    requires
        slash_pos(t, i) == Some(k),
        i >= 0,
    ensures
        i <= k < t.len(),
        t[k] == '/',
        forall|j: int| i <= j < k ==> #[trigger] t[j] != '/',
    decreases t.len() - i,
{
    if i < t.len() && t[i] != '/' {
        lemma_slash_bound(t, i + 1, k);
    }
}

proof fn lemma_no_slash(t: Seq<char>, i: int)
    requires
        0 <= i <= t.len(),
        forall|j: int| i <= j < t.len() ==> #[trigger] t[j] != '/',
    ensures
        slash_pos(t, i) is None,
    decreases t.len() - i,
{
    if i < t.len() {
        lemma_no_slash(t, i + 1);
    }
}

/// Parses `b[from..to]` as hexadecimal digits, either case; `None` where the
/// run is empty, holds a non-digit, or its value does not fit in 32 bits.
#[verifier::loop_isolation(false)]
fn parse_hex_run(b: &[u8], from: usize, to: usize, chars: Ghost<Seq<char>>) -> (r: Option<u32>)
    requires
        from <= to <= b@.len(),
        chars@.len() == to - from,
        forall|i: int|
            0 <= i < chars@.len() ==> (#[trigger] chars@[i]) as u8 == b@[from + i] && chars@[i]
                as u8 as char == chars@[i] && (chars@[i] as int) < 128,
    ensures
        (match r {
            Some(v) => is_hex_seq(chars@) && hex_seq_val(chars@) == v as int && v
                < 0x100000000,
            None => !(is_hex_seq(chars@) && hex_seq_val(chars@) < 0x100000000),
        }),
{
    if from == to {
        return None;
    }
    let mut acc: u64 = 0;
    let mut i: usize = from;
    while i < to
        invariant
            from <= i <= to,
            forall|j: int|
                0 <= j < i - from ==> is_hex_digit(#[trigger] chars@[j]),
            acc as int == hex_seq_val(chars@.take(i - from)),
            acc < 0x100000000,
        decreases to - i,
    {
        let c = b[i];
        let d: u8 = if 48 <= c && c <= 57 {
            c - 48
        } else if 65 <= c && c <= 70 {
            c - 55
        } else if 97 <= c && c <= 102 {
            c - 87
        } else {
            assert(!is_hex_digit(chars@[i - from]));
            return None;
        };
        assert(is_hex_digit(chars@[i - from]));
        assert(d as int == hex_char_val(chars@[i - from]));
        let next: u64 = acc * 16 + (d as u64);
        proof {
            assert(chars@.take(i - from + 1).drop_last() =~= chars@.take(i - from));
            assert(chars@.take(i - from + 1).last() == chars@[i - from]);
        }
        if next > 0xFFFFFFFF {
            proof {
                if is_hex_seq(chars@) {
                    lemma_hex_seq_val_prefix_bound(chars@, i - from + 1);
                    assert(hex_seq_val(chars@) >= next);
                }
            }
            return None;
        }
        acc = next;
        i = i + 1;
    }
    proof {
        assert(chars@.take(to - from) =~= chars@);
    }
    Some(acc as u32)
}

} // verus!
