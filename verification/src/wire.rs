//! The outer wire framing around the streaming sub-protocol: the backend
//! message header, and the client messages the session loop sends during
//! bring-up (startup, password, simple query). Every byte written or read
//! is pinned to a specification of the layout.

use vstd::prelude::*;

use vstd::string::{StringExecFns, StringSliceAdditionalSpecFns};

use crate::errors::ProtocolError;
use crate::reader::be4;

verus! {

/// The big-endian bytes of a 32-bit value.
pub open spec fn u32_be(v: u32) -> Seq<u8> {
    seq![
        (v / 0x1000000 % 0x100) as u8,
        (v / 0x10000 % 0x100) as u8,
        (v / 0x100 % 0x100) as u8,
        (v % 0x100) as u8,
    ]
}

fn push_u32_be(out: &mut Vec<u8>, v: u32)
    ensures
        final(out)@ == old(out)@ + u32_be(v),
{
    out.push((v / 0x1000000 % 0x100) as u8);
    out.push((v / 0x10000 % 0x100) as u8);
    out.push((v / 0x100 % 0x100) as u8);
    out.push((v % 0x100) as u8);
    proof {
        assert(final(out)@ =~= old(out)@ + u32_be(v));
    }
}

fn append_slice(out: &mut Vec<u8>, s: &[u8])
    ensures
        final(out)@ == old(out)@ + s@,
{
    let mut i: usize = 0;
    while i < s.len()
        invariant
            i <= s@.len(),
            out@ =~= old(out)@ + s@.take(i as int),
        decreases s@.len() - i,
    {
        out.push(s[i]);
        i = i + 1;
        proof {
            assert(out@ =~= old(out)@ + s@.take(i as int));
        }
    }
    proof {
        assert(s@.take(s@.len() as int) =~= s@);
    }
}

/// A backend message header: one tag byte and a 32-bit length that counts
/// itself and the body.
pub fn parse_frame_header(b: &[u8]) -> (r: Result<(u8, u32), ProtocolError>)
    ensures
        (match r {
            Ok((tag, l)) => b@.len() >= 5 && tag == b@[0] && l == be4(b@, 1),
            Err(e) => e == ProtocolError::TruncatedCopyData && b@.len() < 5,
        }),
{
    if b.len() < 5 {
        return Err(ProtocolError::TruncatedCopyData);
    }
    let tag = b[0];
    let l = (b[1] as u32) * 0x1000000 + (b[2] as u32) * 0x10000 + (b[3] as u32) * 0x100 + (
    b[4] as u32);
    Ok((tag, l))
}

/// The startup packet for a logical-replication connection: protocol 3.0,
/// `user`, `database`, and `replication` set to `database`.
pub open spec fn spec_startup_message(user: Seq<u8>, database: Seq<u8>) -> Seq<u8> {
    let params = seq![117u8, 115u8, 101u8, 114u8, 0u8] + user + seq![0u8] + seq![
        100u8,
        97u8,
        116u8,
        97u8,
        98u8,
        97u8,
        115u8,
        101u8,
        0u8,
    ] + database + seq![0u8] + seq![
        114u8,
        101u8,
        112u8,
        108u8,
        105u8,
        99u8,
        97u8,
        116u8,
        105u8,
        111u8,
        110u8,
        0u8,
    ] + seq![100u8, 97u8, 116u8, 97u8, 98u8, 97u8, 115u8, 101u8, 0u8] + seq![0u8];
    u32_be((params.len() + 8) as u32) + u32_be(196608) + params
}

/// Builds the startup packet.
pub fn build_startup_message(user: &str, database: &str) -> (r: Vec<u8>)
    requires
        user@.len() <= 0x10000,
        database@.len() <= 0x10000,
        user.spec_bytes().len() <= 0x40000,
        database.spec_bytes().len() <= 0x40000,
    ensures
        r@ == spec_startup_message(user.spec_bytes(), database.spec_bytes()),
{
    let ub = user.as_bytes();
    let db = database.as_bytes();
    let mut params: Vec<u8> = Vec::new();
    append_slice(&mut params, &[117, 115, 101, 114, 0]);
    append_slice(&mut params, ub);
    params.push(0);
    append_slice(&mut params, &[100, 97, 116, 97, 98, 97, 115, 101, 0]);
    append_slice(&mut params, db);
    params.push(0);
    append_slice(&mut params, &[114, 101, 112, 108, 105, 99, 97, 116, 105, 111, 110, 0]);
    append_slice(&mut params, &[100, 97, 116, 97, 98, 97, 115, 101, 0]);
    params.push(0);
    let mut out: Vec<u8> = Vec::new();
    push_u32_be(&mut out, (params.len() + 8) as u32);
    push_u32_be(&mut out, 196608);
    append_slice(&mut out, params.as_slice());
    proof {
        assert(out@ =~= spec_startup_message(user.spec_bytes(), database.spec_bytes()));
    }
    out
}

/// A password response: tag `'p'`, length, the password text, NUL.
pub open spec fn spec_password_message(password: Seq<u8>) -> Seq<u8> {
    seq![112u8] + u32_be((password.len() + 5) as u32) + password + seq![0u8]
}

pub fn build_password_message(password: &str) -> (r: Vec<u8>)
    requires
        password@.len() <= 0x10000,
        password.spec_bytes().len() <= 0x40000,
    ensures
        r@ == spec_password_message(password.spec_bytes()),
{
    let pb = password.as_bytes();
    let mut out: Vec<u8> = Vec::new();
    out.push(112);
    push_u32_be(&mut out, (pb.len() + 5) as u32);
    append_slice(&mut out, pb);
    out.push(0);
    proof {
        assert(out@ =~= spec_password_message(password.spec_bytes()));
    }
    out
}

/// A simple query: tag `'Q'`, length, the command text, NUL.
pub open spec fn spec_query_message(sql: Seq<u8>) -> Seq<u8> {
    seq![81u8] + u32_be((sql.len() + 5) as u32) + sql + seq![0u8]
}

pub fn build_query_message(sql: &str) -> (r: Vec<u8>)
    requires
        sql@.len() <= 0x100000,
        sql.spec_bytes().len() <= 0x400000,
    ensures
        r@ == spec_query_message(sql.spec_bytes()),
{
    let sb = sql.as_bytes();
    let mut out: Vec<u8> = Vec::new();
    out.push(81);
    push_u32_be(&mut out, (sb.len() + 5) as u32);
    append_slice(&mut out, sb);
    out.push(0);
    proof {
        assert(out@ =~= spec_query_message(sql.spec_bytes()));
    }
    out
}

/// A `CopyData` client message wrapping `payload`.
pub open spec fn spec_copy_data_message(payload: Seq<u8>) -> Seq<u8> {
    seq![100u8] + u32_be((payload.len() + 4) as u32) + payload
}

pub fn build_copy_data_message(payload: &[u8]) -> (r: Vec<u8>)
    requires
        payload@.len() <= 0x10000000,
    ensures
        r@ == spec_copy_data_message(payload@),
{
    let mut out: Vec<u8> = Vec::new();
    out.push(100);
    push_u32_be(&mut out, (payload.len() + 4) as u32);
    append_slice(&mut out, payload);
    proof {
        assert(out@ =~= spec_copy_data_message(payload@));
    }
    out
}

/// The `START_REPLICATION` command for a slot, publication and start
/// position, protocol version 1.
pub open spec fn spec_start_replication_command(
    slot: Seq<char>,
    publication: Seq<char>,
    lsn: int,
) -> Seq<char> {
    "START_REPLICATION SLOT "@ + slot + " LOGICAL "@ + crate::lsn::spec_lsn_text(lsn)
        + " (proto_version '1', publication_names '"@ + publication + "')"@
}

pub fn build_start_replication_command(slot: &str, publication: &str, lsn: u64) -> (r: String)
    ensures
        r@ == spec_start_replication_command(slot@, publication@, lsn as int),
{
    let mut out = String::new();
    out.append("START_REPLICATION SLOT ");
    out.append(slot);
    out.append(" LOGICAL ");
    let lsn_text = crate::lsn::format_lsn(lsn);
    out.append(lsn_text.as_str());
    out.append(" (proto_version '1', publication_names '");
    out.append(publication);
    out.append("')");
    out
}

} // verus!
