//! A bounds-checked cursor over a byte slice, with big-endian integer and
//! NUL-terminated-string reads. All `pgoutput` and replication-stream
//! parsing in this crate goes through it.

use vstd::prelude::*;

use crate::errors::DecodeError;

verus! {

/// Value of the 2 bytes of `s` starting at `i`, big-endian.
pub open spec fn be2(s: Seq<u8>, i: int) -> int
    recommends
        0 <= i,
        i + 2 <= s.len(),
{
    s[i] * 0x100 + s[i + 1]
}

/// Value of the 4 bytes of `s` starting at `i`, big-endian.
pub open spec fn be4(s: Seq<u8>, i: int) -> int
    recommends
        0 <= i,
        i + 4 <= s.len(),
{
    s[i] * 0x1000000 + s[i + 1] * 0x10000 + s[i + 2] * 0x100 + s[i + 3]
}

/// Value of the 8 bytes of `s` starting at `i`, big-endian.
pub open spec fn be8(s: Seq<u8>, i: int) -> int
    recommends
        0 <= i,
        i + 8 <= s.len(),
{
    s[i] * 0x100000000000000 + s[i + 1] * 0x1000000000000 + s[i + 2] * 0x10000000000 + s[i + 3]
        * 0x100000000 + s[i + 4] * 0x1000000 + s[i + 5] * 0x10000 + s[i + 6] * 0x100 + s[i + 7]
}

/// The signed value whose two's-complement 64-bit pattern is `v`.
pub open spec fn i64_of_bits(v: int) -> int {
    if v < 0x8000000000000000 {
        v
    } else {
        v - 0x10000000000000000
    }
}

/// The signed value whose two's-complement 32-bit pattern is `v`.
pub open spec fn i32_of_bits(v: int) -> int {
    if v < 0x80000000 {
        v
    } else {
        v - 0x100000000
    }
}

/// Index of the first NUL byte of `s` at or after `i`, if any.
pub open spec fn cstr_end(s: Seq<u8>, i: int) -> Option<int>
    decreases s.len() - i,
{
    if i < 0 || i >= s.len() {
        None
    } else if s[i] == 0 {
        Some(i)
    } else {
        cstr_end(s, i + 1)
    }
}

/// The character sequence that the bytes `b` decode to under UTF-8, or
/// `None` where `b` is not valid UTF-8.
pub uninterp spec fn utf8_decoding(b: Seq<u8>) -> Option<Seq<char>>;

/// Relies on `String::from_utf8`: returns the string decoded from the
/// bytes exactly when they are valid UTF-8. Bytes below 128 are valid
/// UTF-8 and decode to the characters of the same code points.
#[verifier::external_body]
pub(crate) fn string_from_utf8(b: Vec<u8>) -> (r: Option<String>)
    ensures
        (match r {
            Some(s) => utf8_decoding(b@) == Some(s@),
            None => utf8_decoding(b@) is None,
        }),
        (forall|i: int| 0 <= i < b@.len() ==> b@[i] < 128) ==> (r matches Some(s) && s@.len()
            == b@.len() && forall|i: int|
            0 <= i < b@.len() ==> s@[i] == (#[trigger] b@[i]) as char),
{
    String::from_utf8(b).ok()
}

/// Cursor over a byte slice; `pos` never exceeds the slice length.
pub struct Reader<'a> {
    data: &'a [u8],
    pos: usize,
}

impl<'a> Reader<'a> {
    /// The whole underlying byte sequence.
    pub closed spec fn bytes(self) -> Seq<u8> {
        self.data@
    }

    /// The current read position.
    pub closed spec fn pos(self) -> int {
        self.pos as int
    }

    pub open spec fn wf(self) -> bool {
        0 <= self.pos() <= self.bytes().len()
    }

    pub fn new(data: &'a [u8]) -> (r: Reader<'a>)
        ensures
            r.bytes() == data@,
            r.pos() == 0,
            r.wf(),
    {
        Reader { data, pos: 0 }
    }

    pub fn remaining(&self) -> (r: usize)
        requires
            self.wf(),
        ensures
            r == self.bytes().len() - self.pos(),
    {
        self.data.len() - self.pos
    }

    pub fn read_u8(&mut self) -> (r: Result<u8, DecodeError>)
        requires
            old(self).wf(),
        ensures
            final(self).wf(),
            final(self).bytes() == old(self).bytes(),
            match r {
                Ok(v) => {
                    &&& old(self).pos() + 1 <= final(self).bytes().len()
                    &&& final(self).pos() == old(self).pos() + 1
                    &&& v == final(self).bytes()[old(self).pos()]
                },
                Err(e) => {
                    &&& e == DecodeError::TruncatedFrame
                    &&& old(self).pos() == final(self).bytes().len()
                    &&& final(self).pos() == old(self).pos()
                },
            },
    {
        if self.pos < self.data.len() {
            let v = self.data[self.pos];
            self.pos = self.pos + 1;
            Ok(v)
        } else {
            Err(DecodeError::TruncatedFrame)
        }
    }

    pub fn read_u16(&mut self) -> (r: Result<u16, DecodeError>)
        requires
            old(self).wf(),
        ensures
            final(self).wf(),
            final(self).bytes() == old(self).bytes(),
            match r {
                Ok(v) => {
                    &&& old(self).pos() + 2 <= final(self).bytes().len()
                    &&& final(self).pos() == old(self).pos() + 2
                    &&& v == be2(final(self).bytes(), old(self).pos())
                },
                Err(e) => {
                    &&& e == DecodeError::TruncatedFrame
                    &&& old(self).pos() + 2 > final(self).bytes().len()
                    &&& final(self).pos() == old(self).pos()
                },
            },
    {
        if self.data.len() - self.pos >= 2 {
            let b0 = self.data[self.pos];
            let b1 = self.data[self.pos + 1];
            self.pos = self.pos + 2;
            Ok((b0 as u16) * 0x100 + (b1 as u16))
        } else {
            Err(DecodeError::TruncatedFrame)
        }
    }

    pub fn read_u32(&mut self) -> (r: Result<u32, DecodeError>)
        requires
            old(self).wf(),
        ensures
            final(self).wf(),
            final(self).bytes() == old(self).bytes(),
            match r {
                Ok(v) => {
                    &&& old(self).pos() + 4 <= final(self).bytes().len()
                    &&& final(self).pos() == old(self).pos() + 4
                    &&& v == be4(final(self).bytes(), old(self).pos())
                },
                Err(e) => {
                    &&& e == DecodeError::TruncatedFrame
                    &&& old(self).pos() + 4 > final(self).bytes().len()
                    &&& final(self).pos() == old(self).pos()
                },
            },
    {
        if self.data.len() - self.pos >= 4 {
            let b0 = self.data[self.pos];
            let b1 = self.data[self.pos + 1];
            let b2 = self.data[self.pos + 2];
            let b3 = self.data[self.pos + 3];
            self.pos = self.pos + 4;
            Ok((b0 as u32) * 0x1000000 + (b1 as u32) * 0x10000 + (b2 as u32) * 0x100 + (b3 as u32))
        } else {
            Err(DecodeError::TruncatedFrame)
        }
    }

    pub fn read_u64(&mut self) -> (r: Result<u64, DecodeError>)
        requires
            old(self).wf(),
        ensures
            final(self).wf(),
            final(self).bytes() == old(self).bytes(),
            match r {
                Ok(v) => {
                    &&& old(self).pos() + 8 <= final(self).bytes().len()
                    &&& final(self).pos() == old(self).pos() + 8
                    &&& v == be8(final(self).bytes(), old(self).pos())
                },
                Err(e) => {
                    &&& e == DecodeError::TruncatedFrame
                    &&& old(self).pos() + 8 > final(self).bytes().len()
                    &&& final(self).pos() == old(self).pos()
                },
            },
    {
        if self.data.len() - self.pos >= 8 {
            let b0 = self.data[self.pos];
            let b1 = self.data[self.pos + 1];
            let b2 = self.data[self.pos + 2];
            let b3 = self.data[self.pos + 3];
            let b4 = self.data[self.pos + 4];
            let b5 = self.data[self.pos + 5];
            let b6 = self.data[self.pos + 6];
            let b7 = self.data[self.pos + 7];
            self.pos = self.pos + 8;
            Ok(
                (b0 as u64) * 0x100000000000000 + (b1 as u64) * 0x1000000000000 + (b2 as u64)
                    * 0x10000000000 + (b3 as u64) * 0x100000000 + (b4 as u64) * 0x1000000 + (
                b5 as u64) * 0x10000 + (b6 as u64) * 0x100 + (b7 as u64),
            )
        } else {
            Err(DecodeError::TruncatedFrame)
        }
    }

    pub fn read_i32(&mut self) -> (r: Result<i32, DecodeError>)
        requires
            old(self).wf(),
        ensures
            final(self).wf(),
            final(self).bytes() == old(self).bytes(),
            match r {
                Ok(v) => {
                    &&& old(self).pos() + 4 <= final(self).bytes().len()
                    &&& final(self).pos() == old(self).pos() + 4
                    &&& v == i32_of_bits(be4(final(self).bytes(), old(self).pos()))
                },
                Err(e) => {
                    &&& e == DecodeError::TruncatedFrame
                    &&& old(self).pos() + 4 > final(self).bytes().len()
                    &&& final(self).pos() == old(self).pos()
                },
            },
    {
        let v = self.read_u32()?;
        if v < 0x80000000 {
            Ok(v as i32)
        } else {
            let d: u32 = v - 0x80000000;
            Ok((d as i32) + i32::MIN)
        }
    }

    pub fn read_i64(&mut self) -> (r: Result<i64, DecodeError>)
        requires
            old(self).wf(),
        ensures
            final(self).wf(),
            final(self).bytes() == old(self).bytes(),
            match r {
                Ok(v) => {
                    &&& old(self).pos() + 8 <= final(self).bytes().len()
                    &&& final(self).pos() == old(self).pos() + 8
                    &&& v == i64_of_bits(be8(final(self).bytes(), old(self).pos()))
                },
                Err(e) => {
                    &&& e == DecodeError::TruncatedFrame
                    &&& old(self).pos() + 8 > final(self).bytes().len()
                    &&& final(self).pos() == old(self).pos()
                },
            },
    {
        let v = self.read_u64()?;
        if v < 0x8000000000000000 {
            Ok(v as i64)
        } else {
            let d: u64 = v - 0x8000000000000000;
            Ok((d as i64) + i64::MIN)
        }
    }

    /// Reads exactly `n` raw bytes.
    pub fn read_bytes(&mut self, n: usize) -> (r: Result<Vec<u8>, DecodeError>)
        requires
            old(self).wf(),
        ensures
            final(self).wf(),
            final(self).bytes() == old(self).bytes(),
            match r {
                Ok(v) => {
                    &&& old(self).pos() + n <= final(self).bytes().len()
                    &&& final(self).pos() == old(self).pos() + n
                    &&& v@ == final(self).bytes().subrange(old(self).pos(), old(self).pos() + n)
                },
                Err(e) => {
                    &&& e == DecodeError::TruncatedFrame
                    &&& old(self).pos() + n > final(self).bytes().len()
                    &&& final(self).pos() == old(self).pos()
                },
            },
    {
        if self.data.len() - self.pos < n {
            return Err(DecodeError::TruncatedFrame);
        }
        let mut v: Vec<u8> = Vec::new();
        let mut i: usize = 0;
        while i < n
            invariant
                self.wf(),
                self.bytes() == old(self).bytes(),
                self.pos() == old(self).pos(),
                i <= n,
                old(self).pos() + n <= self.bytes().len(),
                v@ == self.bytes().subrange(old(self).pos(), old(self).pos() + i),
            decreases n - i,
        {
            let dlen = self.data.len();
            assert(self.pos() + i < dlen);
            v.push(self.data[self.pos + i]);
            i = i + 1;
            proof {
                assert(v@ =~= self.bytes().subrange(old(self).pos(), old(self).pos() + i));
            }
        }
        self.pos = self.pos + n;
        Ok(v)
    }

    /// Reads the raw bytes of a NUL-terminated string, consuming the NUL.
    pub fn read_cstring_bytes(&mut self) -> (r: Result<Vec<u8>, DecodeError>)
        requires
            old(self).wf(),
        ensures
            final(self).wf(),
            final(self).bytes() == old(self).bytes(),
            match r {
                Ok(v) => {
                    &&& cstr_end(final(self).bytes(), old(self).pos()) == Some(final(self).pos() - 1)
                    &&& v@ == final(self).bytes().subrange(old(self).pos(), final(self).pos() - 1)
                    &&& old(self).pos() < final(self).pos() <= final(self).bytes().len()
                },
                Err(e) => {
                    &&& e == DecodeError::UnterminatedCstr
                    &&& cstr_end(final(self).bytes(), old(self).pos()) is None
                    &&& final(self).pos() == old(self).pos()
                },
            },
    {
        let start = self.pos;
        let mut i: usize = self.pos;
        while i < self.data.len() && self.data[i] != 0
            invariant
                self.wf(),
                start <= i <= self.bytes().len(),
                start == self.pos(),
                cstr_end(self.bytes(), start as int) == cstr_end(self.bytes(), i as int),
            decreases self.bytes().len() - i,
        {
            i = i + 1;
        }
        if i == self.data.len() {
            assert(cstr_end(self.bytes(), i as int) is None);
            return Err(DecodeError::UnterminatedCstr);
        }
        assert(cstr_end(self.bytes(), start as int) == Some(i as int));
        let v = self.read_bytes(i - start);
        let v = match v {
            Ok(v) => v,
            Err(_) => {
                proof {
                    assert(false);
                }
                Vec::new()
            },
        };
        let nul = self.read_u8();
        proof {
            assert(nul is Ok);
        }
        Ok(v)
    }

    /// Reads a NUL-terminated UTF-8 string.
    pub fn read_cstring(&mut self) -> (r: Result<String, DecodeError>)
        requires
            old(self).wf(),
        ensures
            final(self).wf(),
            final(self).bytes() == old(self).bytes(),
            match r {
                Ok(s) => {
                    &&& cstr_end(final(self).bytes(), old(self).pos()) == Some(final(self).pos() - 1)
                    &&& utf8_decoding(
                        final(self).bytes().subrange(old(self).pos(), final(self).pos() - 1),
                    ) == Some(s@)
                    &&& old(self).pos() < final(self).pos() <= final(self).bytes().len()
                },
                Err(DecodeError::UnterminatedCstr) => {
                    &&& cstr_end(final(self).bytes(), old(self).pos()) is None
                    &&& final(self).pos() == old(self).pos()
                },
                Err(DecodeError::InvalidUtf8) => {
                    &&& cstr_end(final(self).bytes(), old(self).pos()) matches Some(j)
                        && utf8_decoding(final(self).bytes().subrange(old(self).pos(), j)) is None
                        && final(self).pos() == j + 1
                },
                Err(_) => false,
            },
    {
        let b = self.read_cstring_bytes()?;
        match string_from_utf8(b) {
            Some(s) => Ok(s),
            None => Err(DecodeError::InvalidUtf8),
        }
    }
}

} // verus!
