//! Connection-string assembly, decimal LSN text, and the reconnection
//! backoff schedule.

use vstd::prelude::*;

use vstd::string::{StrSliceExecFns, StringExecFns};

verus! {

/// Relies on `String::push`: appends the character.
#[verifier::external_body]
fn push_char(out: &mut String, c: char)
    ensures
        final(out)@ == old(out)@ + seq![c],
{
    out.push(c)
}

/// `s` with every single quote escaped as `\'`.
pub open spec fn escape_quotes(s: Seq<char>) -> Seq<char>
    decreases s.len(),
{
    if s.len() == 0 {
        Seq::empty()
    } else {
        escape_quotes(s.drop_last()) + (if s.last() == '\'' {
            seq!['\\', '\'']
        } else {
            seq![s.last()]
        })
    }
}

/// Decimal text of `v`, no leading zeros (`"0"` for zero).
pub open spec fn dec_text(v: int) -> Seq<char>
    recommends
        v >= 0,
    decreases v,
{
    if v < 10 {
        seq![((48 + v) as u8) as char]
    } else {
        dec_text(v / 10).push(((48 + v % 10) as u8) as char)
    }
}

/// The key-value connection string, every value quoted and escaped.
pub open spec fn spec_conn_string(
    host: Seq<char>,
    database: Seq<char>,
    port: int,
    user: Seq<char>,
    password: Seq<char>,
) -> Seq<char> {
    "host='"@ + escape_quotes(host) + "' port='"@ + dec_text(port) + "' dbname='"@ + escape_quotes(
        database,
    ) + "' user='"@ + escape_quotes(user) + "' password='"@ + escape_quotes(password) + "'"@
}

/// Appends `s` with single quotes escaped.
#[verifier::loop_isolation(false)]
fn append_escaped(out: &mut String, s: &str)
    ensures
        final(out)@ == old(out)@ + escape_quotes(s@),
{
    let n = s.unicode_len();
    let mut i: usize = 0;
    while i < n
        invariant
            0 <= i <= n,
            out@ == old(out)@ + escape_quotes(s@.take(i as int)),
        decreases n - i,
    {
        let c = s.get_char(i);
        proof {
            assert(s@.take(i as int + 1).drop_last() =~= s@.take(i as int));
            assert(s@.take(i as int + 1).last() == s@[i as int]);
        }
        if c == '\'' {
            push_char(out, '\\');
            push_char(out, '\'');
            proof {
                assert(out@ =~= old(out)@ + escape_quotes(s@.take(i as int + 1)));
            }
        } else {
            push_char(out, c);
            proof {
                assert(out@ =~= old(out)@ + escape_quotes(s@.take(i as int + 1)));
            }
        }
        i = i + 1;
    }
    proof {
        assert(s@.take(n as int) =~= s@);
    }
}

/// Appends the decimal text of `v`.
fn push_dec(out: &mut String, v: u16)
    ensures
        final(out)@ == old(out)@ + dec_text(v as int),
    decreases v,
{
    if v < 10 {
        push_char(out, ((48 + v) as u8) as char);
    } else {
        push_dec(out, v / 10);
        push_char(out, ((48 + (v % 10)) as u8) as char);
        assert(dec_text(v as int) == dec_text((v as int) / 10).push(
            ((48 + (v as int) % 10) as u8) as char,
        ));
    }
}

/// Builds the key-value connection string for the startup handshake, every
/// value single-quoted with embedded quotes escaped.
pub fn build_connection_string(
    host: &str,
    database: &str,
    port: u16,
    user: &str,
    password: &str,
) -> (r: String)
    ensures
        r@ == spec_conn_string(host@, database@, port as int, user@, password@),
{
    let mut out = String::new();
    out.append("host='");
    append_escaped(&mut out, host);
    out.append("' port='");
    push_dec(&mut out, port);
    out.append("' dbname='");
    append_escaped(&mut out, database);
    out.append("' user='");
    append_escaped(&mut out, user);
    out.append("' password='");
    append_escaped(&mut out, password);
    out.append("'");
    out
}

/// The reconnection backoff schedule: starts at 100 ms and doubles to a
/// 30 s cap; the attempt count resets on success.
#[derive(Debug, Clone, Copy, PartialEq, Eq, Structural)]
pub struct ExponentialBackoff {
    pub current_delay_ms: u64,
    pub max_delay_ms: u64,
    pub attempts: u32,
}

impl ExponentialBackoff {
    pub open spec fn wf(self) -> bool {
        1 <= self.current_delay_ms <= self.max_delay_ms
    }

    pub fn new() -> (r: ExponentialBackoff)
        ensures
            r.wf(),
            r.current_delay_ms == 100,
            r.max_delay_ms == 30000,
            r.attempts == 0,
    {
        ExponentialBackoff { current_delay_ms: 100, max_delay_ms: 30000, attempts: 0 }
    }

    /// One attempt has been waited out: the delay doubles, up to the cap.
    pub fn advance(&mut self)
        requires
            old(self).wf(),
        ensures
            final(self).wf(),
            final(self).current_delay_ms == (if old(self).current_delay_ms * 2
                <= old(self).max_delay_ms {
                old(self).current_delay_ms * 2
            } else {
                old(self).max_delay_ms as int
            }),
            final(self).max_delay_ms == old(self).max_delay_ms,
            final(self).attempts == (if old(self).attempts < u32::MAX {
                old(self).attempts + 1
            } else {
                old(self).attempts as int
            }),
    {
        if self.attempts < u32::MAX {
            self.attempts = self.attempts + 1;
        }
        if self.current_delay_ms <= self.max_delay_ms / 2 {
            self.current_delay_ms = self.current_delay_ms * 2;
        } else {
            self.current_delay_ms = self.max_delay_ms;
        }
        proof {
            vstd::arithmetic::div_mod::lemma_fundamental_div_mod(old(self).max_delay_ms as int, 2);
        }
    }

    /// A receive succeeded: the schedule starts over.
    pub fn reset(&mut self)
        ensures
            final(self).wf(),
            final(self).current_delay_ms == 100,
            final(self).max_delay_ms == (if old(self).max_delay_ms >= 100 {
                old(self).max_delay_ms
            } else {
                100
            }),
            final(self).attempts == 0,
    {
        self.current_delay_ms = 100;
        if self.max_delay_ms < 100 {
            self.max_delay_ms = 100;
        }
        self.attempts = 0;
    }
}

pub open spec fn is_dec_digit_char(c: char) -> bool {
    '0' <= c && c <= '9'
}

pub open spec fn all_dec_digit_chars(s: Seq<char>) -> bool {
    forall|i: int| 0 <= i < s.len() ==> is_dec_digit_char(#[trigger] s[i])
}

/// The value of a run of decimal digit characters.
pub open spec fn dec_seq_val(s: Seq<char>) -> int
    decreases s.len(),
{
    if s.len() == 0 {
        0
    } else {
        dec_seq_val(s.drop_last()) * 10 + (s.last() as int - 48)
    }
}

/// What parsing unsigned decimal text yields: an optional `+`, then one or
/// more digits, nothing else, and a value that fits 64 bits.
pub open spec fn spec_parse_u64(t: Seq<char>) -> Option<int> {
    let ds = if t.len() > 0 && t[0] == '+' {
        t.subrange(1, t.len() as int)
    } else {
        t
    };
    if ds.len() == 0 || !all_dec_digit_chars(ds) {
        None
    } else {
        let m = dec_seq_val(ds);
        if m < 0x10000000000000000 {
            Some(m)
        } else {
            None
        }
    }
}

proof fn lemma_dec_seq_val_nonneg(s: Seq<char>)
    requires
        all_dec_digit_chars(s),
    ensures
        dec_seq_val(s) >= 0,
    decreases s.len(),
{
    if s.len() > 0 {
        assert(all_dec_digit_chars(s.drop_last())) by {
            assert(forall|i: int|
                0 <= i < s.len() - 1 ==> s.drop_last()[i] == #[trigger] s[i]);
        }
        lemma_dec_seq_val_nonneg(s.drop_last());
    }
}

proof fn lemma_dec_seq_prefix_bound(s: Seq<char>, j: int)
    requires
        all_dec_digit_chars(s),
        0 <= j <= s.len(),
    ensures
        dec_seq_val(s.take(j)) <= dec_seq_val(s),
    decreases s.len() - j,
{
    if j < s.len() {
        lemma_dec_seq_prefix_bound(s, j + 1);
        let a = s.take(j);
        let b = s.take(j + 1);
        assert(b.drop_last() =~= a);
        assert(b.last() == s[j]);
        assert(all_dec_digit_chars(a)) by {
            assert(forall|i: int| 0 <= i < j ==> a[i] == #[trigger] s[i]);
        }
        lemma_dec_seq_val_nonneg(a);
        assert(dec_seq_val(b) == dec_seq_val(a) * 10 + (s[j] as int - 48));
    } else {
        assert(s.take(j) =~= s);
    }
}

/// Parses unsigned decimal text, as the platform integer parser does:
/// `None` on an empty run, a stray character, or overflow.
#[verifier::loop_isolation(false)]
pub fn parse_u64_decimal(s: &str) -> (r: Option<u64>)
    ensures
        (match r {
            Some(v) => spec_parse_u64(s@) == Some(v as int),
            None => spec_parse_u64(s@) is None,
        }),
{
    let n = s.unicode_len();
    let mut start: usize = 0;
    if n > 0 && s.get_char(0) == '+' {
        start = 1;
    }
    let ghost ds = if s@.len() > 0 && s@[0] == '+' {
        s@.subrange(1, s@.len() as int)
    } else {
        s@
    };
    assert(ds.len() == n - start);
    assert(forall|i: int| 0 <= i < ds.len() ==> ds[i] == #[trigger] s@[start + i]);
    if start == n {
        return None;
    }
    let mut acc: u64 = 0;
    let mut i: usize = start;
    while i < n
        invariant
            start <= i <= n,
            forall|j: int| 0 <= j < i - start ==> is_dec_digit_char(#[trigger] ds[j]),
            acc as int == dec_seq_val(ds.take(i - start)),
        decreases n - i,
    {
        let c = s.get_char(i);
        if !('0' <= c && c <= '9') {
            proof {
                assert(ds[i - start] == c);
                assert(!all_dec_digit_chars(ds));
            }
            return None;
        }
        let d: u64 = ((c as u32) - 48) as u64;
        proof {
            assert(is_dec_digit_char(ds[i - start]));
            assert(d as int == ds[i - start] as int - 48);
            assert(ds.take(i - start + 1).drop_last() =~= ds.take(i - start));
            assert(ds.take(i - start + 1).last() == ds[i - start]);
        }
        if acc > u64::MAX / 10 || (acc == u64::MAX / 10 && d > u64::MAX % 10) {
            proof {
                vstd::arithmetic::div_mod::lemma_fundamental_div_mod(u64::MAX as int, 10);
                assert((acc as int) * 10 + d as int > u64::MAX) by (nonlinear_arith)
                    requires
                        acc > u64::MAX / 10 || (acc == u64::MAX / 10 && d > u64::MAX % 10),
                        u64::MAX as int == (u64::MAX as int / 10) * 10 + u64::MAX as int % 10,
                        0 <= u64::MAX as int % 10 < 10,
                        d >= 0,
                ;
                if all_dec_digit_chars(ds) {
                    lemma_dec_seq_prefix_bound(ds, i - start + 1);
                    assert(dec_seq_val(ds) > u64::MAX);
                    assert(spec_parse_u64(s@) is None);
                } else {
                    assert(spec_parse_u64(s@) is None);
                }
            }
            return None;
        }
        proof {
            vstd::arithmetic::div_mod::lemma_fundamental_div_mod(u64::MAX as int, 10);
            assert((acc as int) * 10 + d as int <= u64::MAX) by (nonlinear_arith)
                requires
                    acc < u64::MAX / 10 || (acc == u64::MAX / 10 && d <= u64::MAX % 10),
                    u64::MAX as int == (u64::MAX as int / 10) * 10 + u64::MAX as int % 10,
                    0 <= u64::MAX as int % 10 < 10,
                    0 <= d < 10,
            ;
        }
        acc = acc * 10 + d;
        i = i + 1;
    }
    proof {
        assert(ds.take(n - start) =~= ds);
    }
    Some(acc)
}

} // verus!
