//! Decoder for the `pgoutput` binary protocol.
//!
//! Each message grammar is written down as a specification parser over the
//! raw byte sequence (`spec_begin`, `spec_relation`, ...); the executable
//! decoder is proved to return exactly what the specification parser says,
//! including which error each malformed payload produces.

use vstd::prelude::*;

use std::collections::HashMap;

use crate::errors::DecodeError;
use crate::messages::{
    BeginMessage, ColumnInfo, CommitMessage, DeleteMessage, InsertMessage, LogicalMessage,
    OriginMessage, PgOutputMessage, RelationMessage, TruncateMessage, TupleValue, TypeMessage,
    UpdateMessage,
};
use crate::reader::{be2, be4, be8, cstr_end, i32_of_bits, i64_of_bits, utf8_decoding, Reader};

verus! {

broadcast use vstd::std_specs::hash::group_hash_axioms;

pub const TAG_BEGIN: u8 = 66;

pub const TAG_COMMIT: u8 = 67;

pub const TAG_RELATION: u8 = 82;

pub const TAG_INSERT: u8 = 73;

pub const TAG_UPDATE: u8 = 85;

pub const TAG_DELETE: u8 = 68;

pub const TAG_TRUNCATE: u8 = 84;

pub const TAG_TYPE: u8 = 89;

pub const TAG_ORIGIN: u8 = 79;

pub const TAG_MESSAGE: u8 = 77;

pub const SENTINEL_NEW: u8 = 78;

pub const SENTINEL_OLD_FULL: u8 = 79;

pub const SENTINEL_OLD_KEY: u8 = 75;

pub const COLUMN_NULL: u8 = 110;

pub const COLUMN_TOAST: u8 = 117;

pub const COLUMN_TEXT: u8 = 116;

/// Specification-level column schema entry.
pub struct ParsedColumn {
    pub flags: u8,
    pub name: Seq<char>,
    pub type_id: u32,
    pub type_modifier: int,
}

/// Specification-level tuple column value.
pub enum ParsedValue {
    Null,
    Toast,
    Present(Seq<u8>),
}

/// Specification-level relation schema.
pub struct ParsedRelation {
    pub rel_id: u32,
    pub namespace: Seq<char>,
    pub name: Seq<char>,
    pub replica_identity: u8,
    pub columns: Seq<ParsedColumn>,
}

/// Specification-level decoded message.
pub enum ParsedMessage {
    Begin(BeginMessage),
    Commit(CommitMessage),
    Relation(ParsedRelation),
    Insert(u32, Seq<ParsedValue>),
    Update(u32, Option<Seq<ParsedValue>>, Seq<ParsedValue>),
    Delete(u32, Seq<ParsedValue>),
    Truncate(u8, Seq<u32>),
    Type(u32, Seq<char>, Seq<char>),
    Origin(u64, Seq<char>),
    Message(bool, u64, Seq<char>, Seq<u8>),
}

/// Reads the NUL-terminated string at `i`: its characters and the position
/// one past the NUL.
pub open spec fn spec_cstr(s: Seq<u8>, i: int) -> Result<(Seq<char>, int), DecodeError> {
    match cstr_end(s, i) {
        None => Err(DecodeError::UnterminatedCstr),
        Some(j) => match utf8_decoding(s.subrange(i, j)) {
            Some(cs) => Ok((cs, j + 1)),
            None => Err(DecodeError::InvalidUtf8),
        },
    }
}

pub open spec fn spec_begin(s: Seq<u8>) -> Result<ParsedMessage, DecodeError> {
    if s.len() < 21 {
        Err(DecodeError::TruncatedFrame)
    } else {
        Ok(
            ParsedMessage::Begin(
                BeginMessage {
                    final_lsn: be8(s, 1) as u64,
                    timestamp: i64_of_bits(be8(s, 9)) as i64,
                    xid: be4(s, 17) as u32,
                },
            ),
        )
    }
}

pub open spec fn spec_commit(s: Seq<u8>) -> Result<ParsedMessage, DecodeError> {
    if s.len() < 26 {
        Err(DecodeError::TruncatedFrame)
    } else {
        Ok(
            ParsedMessage::Commit(
                CommitMessage {
                    flags: s[1],
                    commit_lsn: be8(s, 2) as u64,
                    end_lsn: be8(s, 10) as u64,
                    timestamp: i64_of_bits(be8(s, 18)) as i64,
                },
            ),
        )
    }
}

/// Reads `n` column schema entries starting at `i`.
pub open spec fn spec_columns(s: Seq<u8>, i: int, n: nat) -> Result<
    (Seq<ParsedColumn>, int),
    DecodeError,
>
    decreases n,
{
    if n == 0 {
        Ok((Seq::empty(), i))
    } else if i >= s.len() {
        Err(DecodeError::TruncatedFrame)
    } else {
        let flags = s[i];
        match spec_cstr(s, i + 1) {
            Err(e) => Err(e),
            Ok((name, p)) => if p + 8 > s.len() {
                Err(DecodeError::TruncatedFrame)
            } else {
                let col = ParsedColumn {
                    flags,
                    name,
                    type_id: be4(s, p) as u32,
                    type_modifier: i32_of_bits(be4(s, p + 4)),
                };
                match spec_columns(s, p + 8, (n - 1) as nat) {
                    Err(e) => Err(e),
                    Ok((rest, end)) => Ok((seq![col] + rest, end)),
                }
            },
        }
    }
}

pub open spec fn spec_relation(s: Seq<u8>) -> Result<ParsedMessage, DecodeError> {
    if s.len() < 5 {
        Err(DecodeError::TruncatedFrame)
    } else {
        let rel_id = be4(s, 1) as u32;
        match spec_cstr(s, 5) {
            Err(e) => Err(e),
            Ok((namespace, p1)) => match spec_cstr(s, p1) {
                Err(e) => Err(e),
                Ok((name, p2)) => if p2 + 3 > s.len() {
                    Err(DecodeError::TruncatedFrame)
                } else {
                    let replica_identity = s[p2];
                    let n = be2(s, p2 + 1);
                    match spec_columns(s, p2 + 3, n as nat) {
                        Err(e) => Err(e),
                        Ok((columns, _end)) => Ok(
                            ParsedMessage::Relation(
                                ParsedRelation {
                                    rel_id,
                                    namespace,
                                    name,
                                    replica_identity,
                                    columns,
                                },
                            ),
                        ),
                    }
                },
            },
        }
    }
}

/// Reads `n` tuple column values starting at `i`.
pub open spec fn spec_tuple_values(s: Seq<u8>, i: int, n: nat) -> Result<
    (Seq<ParsedValue>, int),
    DecodeError,
>
    decreases n,
{
    if n == 0 {
        Ok((Seq::empty(), i))
    } else if i >= s.len() {
        Err(DecodeError::TruncatedFrame)
    } else if s[i] == COLUMN_NULL {
        match spec_tuple_values(s, i + 1, (n - 1) as nat) {
            Err(e) => Err(e),
            Ok((rest, end)) => Ok((seq![ParsedValue::Null] + rest, end)),
        }
    } else if s[i] == COLUMN_TOAST {
        match spec_tuple_values(s, i + 1, (n - 1) as nat) {
            Err(e) => Err(e),
            Ok((rest, end)) => Ok((seq![ParsedValue::Toast] + rest, end)),
        }
    } else if s[i] == COLUMN_TEXT {
        if i + 5 > s.len() {
            Err(DecodeError::TruncatedFrame)
        } else {
            let l = be4(s, i + 1);
            if i + 5 + l > s.len() {
                Err(DecodeError::TruncatedFrame)
            } else {
                match spec_tuple_values(s, i + 5 + l, (n - 1) as nat) {
                    Err(e) => Err(e),
                    Ok((rest, end)) => Ok(
                        (seq![ParsedValue::Present(s.subrange(i + 5, i + 5 + l))] + rest, end),
                    ),
                }
            }
        }
    } else {
        Err(DecodeError::BadColumnTag(s[i]))
    }
}

/// Reads a whole TupleData group (column count, then the values) at `i`.
pub open spec fn spec_tuple(s: Seq<u8>, i: int) -> Result<(Seq<ParsedValue>, int), DecodeError> {
    if i + 2 > s.len() {
        Err(DecodeError::TruncatedFrame)
    } else {
        spec_tuple_values(s, i + 2, be2(s, i) as nat)
    }
}

pub open spec fn spec_insert(s: Seq<u8>) -> Result<ParsedMessage, DecodeError> {
    if s.len() < 6 {
        Err(DecodeError::TruncatedFrame)
    } else {
        let rel_id = be4(s, 1) as u32;
        if s[5] != SENTINEL_NEW {
            Err(DecodeError::ExpectedNewTuple(s[5]))
        } else {
            match spec_tuple(s, 6) {
                Err(e) => Err(e),
                Ok((vals, _end)) => Ok(ParsedMessage::Insert(rel_id, vals)),
            }
        }
    }
}

pub open spec fn spec_update(s: Seq<u8>) -> Result<ParsedMessage, DecodeError> {
    if s.len() < 6 {
        Err(DecodeError::TruncatedFrame)
    } else {
        let rel_id = be4(s, 1) as u32;
        if s[5] == SENTINEL_OLD_FULL || s[5] == SENTINEL_OLD_KEY {
            match spec_tuple(s, 6) {
                Err(e) => Err(e),
                Ok((old_vals, p)) => if p >= s.len() {
                    Err(DecodeError::TruncatedFrame)
                } else if s[p] != SENTINEL_NEW {
                    Err(DecodeError::BadTupleSentinel(s[p]))
                } else {
                    match spec_tuple(s, p + 1) {
                        Err(e) => Err(e),
                        Ok((new_vals, _end)) => Ok(
                            ParsedMessage::Update(rel_id, Some(old_vals), new_vals),
                        ),
                    }
                },
            }
        } else if s[5] == SENTINEL_NEW {
            match spec_tuple(s, 6) {
                Err(e) => Err(e),
                Ok((new_vals, _end)) => Ok(ParsedMessage::Update(rel_id, None, new_vals)),
            }
        } else {
            Err(DecodeError::BadTupleSentinel(s[5]))
        }
    }
}

pub open spec fn spec_delete(s: Seq<u8>) -> Result<ParsedMessage, DecodeError> {
    if s.len() < 6 {
        Err(DecodeError::TruncatedFrame)
    } else {
        let rel_id = be4(s, 1) as u32;
        if s[5] != SENTINEL_OLD_FULL && s[5] != SENTINEL_OLD_KEY {
            Err(DecodeError::BadTupleSentinel(s[5]))
        } else {
            match spec_tuple(s, 6) {
                Err(e) => Err(e),
                Ok((vals, _end)) => Ok(ParsedMessage::Delete(rel_id, vals)),
            }
        }
    }
}

pub open spec fn spec_truncate(s: Seq<u8>) -> Result<ParsedMessage, DecodeError> {
    if s.len() < 6 {
        Err(DecodeError::TruncatedFrame)
    } else {
        let n = be4(s, 1);
        if 6 + 4 * n > s.len() {
            Err(DecodeError::TruncatedFrame)
        } else {
            Ok(
                ParsedMessage::Truncate(
                    s[5],
                    Seq::new(n as nat, |k: int| be4(s, 6 + 4 * k) as u32),
                ),
            )
        }
    }
}

pub open spec fn spec_type(s: Seq<u8>) -> Result<ParsedMessage, DecodeError> {
    if s.len() < 5 {
        Err(DecodeError::TruncatedFrame)
    } else {
        let type_id = be4(s, 1) as u32;
        match spec_cstr(s, 5) {
            Err(e) => Err(e),
            Ok((namespace, p)) => match spec_cstr(s, p) {
                Err(e) => Err(e),
                Ok((name, _end)) => Ok(ParsedMessage::Type(type_id, namespace, name)),
            },
        }
    }
}

pub open spec fn spec_origin(s: Seq<u8>) -> Result<ParsedMessage, DecodeError> {
    if s.len() < 9 {
        Err(DecodeError::TruncatedFrame)
    } else {
        match spec_cstr(s, 9) {
            Err(e) => Err(e),
            Ok((name, _end)) => Ok(ParsedMessage::Origin(be8(s, 1) as u64, name)),
        }
    }
}

pub open spec fn spec_logical_message(s: Seq<u8>) -> Result<ParsedMessage, DecodeError> {
    if s.len() < 10 {
        Err(DecodeError::TruncatedFrame)
    } else {
        match spec_cstr(s, 10) {
            Err(e) => Err(e),
            Ok((prefix, p)) => if p + 4 > s.len() {
                Err(DecodeError::TruncatedFrame)
            } else {
                let l = be4(s, p);
                if p + 4 + l > s.len() {
                    Err(DecodeError::TruncatedFrame)
                } else {
                    Ok(
                        ParsedMessage::Message(
                            (s[1] & 1) == 1,
                            be8(s, 2) as u64,
                            prefix,
                            s.subrange(p + 4, p + 4 + l),
                        ),
                    )
                }
            },
        }
    }
}

/// What decoding one whole payload yields: the dispatch on the tag byte.
pub open spec fn spec_decode(s: Seq<u8>) -> Result<ParsedMessage, DecodeError> {
    if s.len() == 0 {
        Err(DecodeError::TruncatedFrame)
    } else if s[0] == TAG_BEGIN {
        spec_begin(s)
    } else if s[0] == TAG_COMMIT {
        spec_commit(s)
    } else if s[0] == TAG_RELATION {
        spec_relation(s)
    } else if s[0] == TAG_INSERT {
        spec_insert(s)
    } else if s[0] == TAG_UPDATE {
        spec_update(s)
    } else if s[0] == TAG_DELETE {
        spec_delete(s)
    } else if s[0] == TAG_TRUNCATE {
        spec_truncate(s)
    } else if s[0] == TAG_TYPE {
        spec_type(s)
    } else if s[0] == TAG_ORIGIN {
        spec_origin(s)
    } else if s[0] == TAG_MESSAGE {
        spec_logical_message(s)
    } else {
        Err(DecodeError::UnknownTag(s[0]))
    }
}

pub open spec fn column_matches(c: ColumnInfo, p: ParsedColumn) -> bool {
    &&& c.flags == p.flags
    &&& c.name@ == p.name
    &&& c.type_id == p.type_id
    &&& c.type_modifier as int == p.type_modifier
}

pub open spec fn value_matches(v: TupleValue, p: ParsedValue) -> bool {
    match v {
        TupleValue::Null => p is Null,
        TupleValue::UnchangedToast => p is Toast,
        TupleValue::Present(b) => p matches ParsedValue::Present(q) && b@ == q,
    }
}

pub open spec fn tuple_matches(t: Seq<TupleValue>, p: Seq<ParsedValue>) -> bool {
    &&& t.len() == p.len()
    &&& forall|k: int| 0 <= k < t.len() ==> value_matches(#[trigger] t[k], p[k])
}

pub open spec fn relation_matches(m: RelationMessage, p: ParsedRelation) -> bool {
    &&& m.rel_id == p.rel_id
    &&& m.namespace@ == p.namespace
    &&& m.name@ == p.name
    &&& m.replica_identity == p.replica_identity
    &&& m.columns@.len() == p.columns.len()
    &&& forall|k: int|
        0 <= k < m.columns@.len() ==> column_matches(#[trigger] m.columns@[k], p.columns[k])
}

/// The decoded message `m` is the one that the specification parser read.
pub open spec fn message_matches(m: PgOutputMessage, p: ParsedMessage) -> bool {
    match p {
        ParsedMessage::Begin(b) => m == PgOutputMessage::Begin(b),
        ParsedMessage::Commit(c) => m == PgOutputMessage::Commit(c),
        ParsedMessage::Relation(pr) => m matches PgOutputMessage::Relation(rm)
            && relation_matches(rm, pr),
        ParsedMessage::Insert(rid, vals) => m matches PgOutputMessage::Insert(im) && im.rel_id
            == rid && tuple_matches(im.tuple@, vals),
        ParsedMessage::Update(rid, old_vals, new_vals) => m matches PgOutputMessage::Update(um)
            && um.rel_id == rid && tuple_matches(um.new_tuple@, new_vals) && (match (
            um.old_tuple,
            old_vals,
        ) {
            (Option::None, Option::None) => true,
            (Option::Some(t), Option::Some(pv)) => tuple_matches(t@, pv),
            _ => false,
        }),
        ParsedMessage::Delete(rid, vals) => m matches PgOutputMessage::Delete(dm) && dm.rel_id
            == rid && tuple_matches(dm.old_tuple@, vals),
        ParsedMessage::Truncate(options, rids) => m matches PgOutputMessage::Truncate(tm)
            && tm.options == options && tm.rel_ids@ == rids,
        ParsedMessage::Type(tid, ns, nm) => m matches PgOutputMessage::Type(tm) && tm.type_id == tid
            && tm.namespace@ == ns && tm.name@ == nm,
        ParsedMessage::Origin(lsn, nm) => m matches PgOutputMessage::Origin(om) && om.lsn == lsn
            && om.name@ == nm,
        ParsedMessage::Message(tr, lsn, pfx, content) => m matches PgOutputMessage::Message(lm)
            && lm.transactional == tr && lm.lsn == lsn && lm.prefix@ == pfx && lm.content@
            == content,
    }
}

/// The relation ids introduced by the Relation payloads of `ps`, in stream
/// order: exactly the ids a decoder's cache holds after decoding all of `ps`.
pub open spec fn known_relations(ps: Seq<Seq<u8>>) -> Set<u32>
    decreases ps.len(),
{
    if ps.len() == 0 {
        Set::empty()
    } else {
        let prev = known_relations(ps.drop_last());
        match spec_decode(ps.last()) {
            Ok(ParsedMessage::Relation(pr)) => prev.insert(pr.rel_id),
            _ => prev,
        }
    }
}

/// The relation id a payload introduces, where it decodes to a Relation.
pub open spec fn rel_event_id(r: Result<ParsedMessage, DecodeError>) -> Option<u32> {
    match r {
        Ok(ParsedMessage::Relation(pr)) => Some(pr.rel_id),
        _ => None,
    }
}

/// The relation id a payload refers to, where it decodes to a tuple event.
pub open spec fn tuple_event_rel(r: Result<ParsedMessage, DecodeError>) -> Option<u32> {
    match r {
        Ok(ParsedMessage::Insert(rid, _)) => Some(rid),
        Ok(ParsedMessage::Update(rid, _, _)) => Some(rid),
        Ok(ParsedMessage::Delete(rid, _)) => Some(rid),
        _ => None,
    }
}

proof fn lemma_known_relations(ps: Seq<Seq<u8>>, rid: u32)
    ensures
        known_relations(ps).contains(rid) <==> exists|j: int|
            0 <= j < ps.len() && rel_event_id(spec_decode(#[trigger] ps[j])) == Some(rid),
    decreases ps.len(),
{
    if ps.len() == 0 {
    } else {
        let prefix = ps.drop_last();
        lemma_known_relations(prefix, rid);
        assert(forall|j: int| 0 <= j < prefix.len() ==> prefix[j] == #[trigger] ps[j]);
        if known_relations(ps).contains(rid) {
            if known_relations(prefix).contains(rid) {
                let j = choose|j: int|
                    0 <= j < prefix.len() && rel_event_id(spec_decode(#[trigger] prefix[j]))
                        == Some(rid);
                assert(rel_event_id(spec_decode(ps[j])) == Some(rid));
            } else {
                assert(rel_event_id(spec_decode(ps[ps.len() - 1])) == Some(rid));
            }
        }
        if exists|j: int|
            0 <= j < ps.len() && rel_event_id(spec_decode(#[trigger] ps[j])) == Some(rid) {
            let j = choose|j: int|
                0 <= j < ps.len() && rel_event_id(spec_decode(#[trigger] ps[j])) == Some(rid);
            if j < ps.len() - 1 {
                assert(rel_event_id(spec_decode(prefix[j])) == Some(rid));
            }
            assert(known_relations(ps).contains(rid));
        }
    }
}

/// Relation-before-tuple: if a payload of a stream decodes to an
/// Insert/Update/Delete event and its relation id is known at that point
/// (which is exactly what a successful cache lookup establishes), then some
/// strictly earlier payload of the stream is a Relation event with the same
/// id.
pub proof fn lemma_relation_before_tuple(ps: Seq<Seq<u8>>, k: int, rid: u32)
    requires
        0 <= k < ps.len(),
        tuple_event_rel(spec_decode(ps[k])) == Some(rid),
        known_relations(ps.take(k)).contains(rid),
    ensures
        exists|j: int| 0 <= j < k && rel_event_id(spec_decode(#[trigger] ps[j])) == Some(rid),
{
    lemma_known_relations(ps.take(k), rid);
    let j = choose|j: int|
        0 <= j < ps.take(k).len() && rel_event_id(spec_decode(#[trigger] ps.take(k)[j])) == Some(
            rid,
        );
    assert(ps.take(k)[j] == ps[j]);
    assert(rel_event_id(spec_decode(ps[j])) == Some(rid));
}

/// Decoder for `pgoutput` payloads, holding the relation cache.
pub struct PgOutputDecoder {
    relations: HashMap<u32, RelationMessage>,
    history: Ghost<Seq<Seq<u8>>>,
}

impl PgOutputDecoder {
    /// The relation cache: schemas delivered by Relation events so far.
    pub closed spec fn cache(self) -> Map<u32, RelationMessage> {
        self.relations@
    }

    /// Every payload this decoder has been fed, in order.
    pub closed spec fn history(self) -> Seq<Seq<u8>> {
        self.history@
    }

    /// The cache holds exactly the relation ids of the Relation events fed
    /// so far.
    pub open spec fn wf(self) -> bool {
        self.cache().dom() == known_relations(self.history())
    }

    pub fn new() -> (r: PgOutputDecoder)
        ensures
            r.wf(),
            r.cache() == Map::<u32, RelationMessage>::empty(),
            r.history() == Seq::<Seq<u8>>::empty(),
    {
        let r = PgOutputDecoder { relations: HashMap::new(), history: Ghost(Seq::empty()) };
        proof {
            assert(r.cache().dom() =~= known_relations(r.history()));
        }
        r
    }

    /// Looks a relation id up in the cache.
    pub fn get_relation(&self, rel_id: u32) -> (r: Option<&RelationMessage>)
        ensures
            match r {
                Some(m) => self.cache().contains_key(rel_id) && *m == self.cache()[rel_id],
                None => !self.cache().contains_key(rel_id),
            },
    {
        self.relations.get(&rel_id)
    }

    /// Decodes one `pgoutput` payload, returning exactly what the
    /// specification parser reads from the bytes, and caching the schema
    /// wherever the payload is a Relation event.
    pub fn decode(&mut self, data: &[u8]) -> (r: Result<PgOutputMessage, DecodeError>)
        requires
            old(self).wf(),
        ensures
            final(self).wf(),
            final(self).history() == old(self).history().push(data@),
            match spec_decode(data@) {
                Err(e) => r == Err::<PgOutputMessage, DecodeError>(e) && final(self).cache()
                    == old(self).cache(),
                Ok(p) => match r {
                    Ok(m) => message_matches(m, p) && (match p {
                        ParsedMessage::Relation(pr) => {
                            &&& final(self).cache().dom() == old(self).cache().dom().insert(
                                pr.rel_id,
                            )
                            &&& relation_matches(final(self).cache()[pr.rel_id], pr)
                            &&& forall|k: u32|
                                old(self).cache().contains_key(k) && k != pr.rel_id
                                    ==> final(self).cache()[k] == #[trigger] old(self).cache()[k]
                        },
                        _ => final(self).cache() == old(self).cache(),
                    }),
                    Err(_) => false,
                },
            },
    {
        proof {
            assert(old(self).history().push(data@).drop_last() =~= old(self).history());
        }
        self.history = Ghost(self.history@.push(data@));
        let mut rd = Reader::new(data);
        let tag = match rd.read_u8() {
            Ok(t) => t,
            Err(e) => {
                proof {
                    assert(self.cache().dom() =~= known_relations(self.history()));
                }
                return Err(e);
            },
        };
        let r = if tag == TAG_BEGIN {
            decode_begin(&mut rd)
        } else if tag == TAG_COMMIT {
            decode_commit(&mut rd)
        } else if tag == TAG_RELATION {
            match decode_relation(&mut rd) {
                Ok(rm) => {
                    let rel_id = rm.rel_id;
                    let copy = copy_relation(&rm);
                    self.relations.insert(rel_id, rm);
                    proof {
                        assert(self.cache().dom() =~= known_relations(self.history()));
                    }
                    return Ok(PgOutputMessage::Relation(copy));
                },
                Err(e) => Err(e),
            }
        } else if tag == TAG_INSERT {
            decode_insert(&mut rd)
        } else if tag == TAG_UPDATE {
            decode_update(&mut rd)
        } else if tag == TAG_DELETE {
            decode_delete(&mut rd)
        } else if tag == TAG_TRUNCATE {
            decode_truncate(&mut rd)
        } else if tag == TAG_TYPE {
            decode_type(&mut rd)
        } else if tag == TAG_ORIGIN {
            decode_origin(&mut rd)
        } else if tag == TAG_MESSAGE {
            decode_logical_message(&mut rd)
        } else {
            Err(DecodeError::UnknownTag(tag))
        };
        proof {
            assert(self.cache().dom() =~= known_relations(self.history()));
        }
        r
    }
}

/// A field-for-field copy of a relation schema.
fn copy_relation(m: &RelationMessage) -> (r: RelationMessage)
    ensures
        r.rel_id == m.rel_id,
        r.namespace@ == m.namespace@,
        r.name@ == m.name@,
        r.replica_identity == m.replica_identity,
        r.columns@.len() == m.columns@.len(),
        forall|k: int|
            0 <= k < m.columns@.len() ==> {
                &&& (#[trigger] r.columns@[k]).flags == m.columns@[k].flags
                &&& r.columns@[k].name@ == m.columns@[k].name@
                &&& r.columns@[k].type_id == m.columns@[k].type_id
                &&& r.columns@[k].type_modifier == m.columns@[k].type_modifier
            },
{
    let mut columns: Vec<ColumnInfo> = Vec::new();
    let mut i: usize = 0;
    while i < m.columns.len()
        invariant
            i <= m.columns@.len(),
            columns@.len() == i,
            forall|k: int|
                0 <= k < i ==> {
                    &&& (#[trigger] columns@[k]).flags == m.columns@[k].flags
                    &&& columns@[k].name@ == m.columns@[k].name@
                    &&& columns@[k].type_id == m.columns@[k].type_id
                    &&& columns@[k].type_modifier == m.columns@[k].type_modifier
                },
        decreases m.columns@.len() - i,
    {
        let c = &m.columns[i];
        columns.push(
            ColumnInfo {
                flags: c.flags,
                name: c.name.clone(),
                type_id: c.type_id,
                type_modifier: c.type_modifier,
            },
        );
        i = i + 1;
    }
    RelationMessage {
        rel_id: m.rel_id,
        namespace: m.namespace.clone(),
        name: m.name.clone(),
        replica_identity: m.replica_identity,
        columns,
    }
}

fn decode_begin(rd: &mut Reader) -> (r: Result<PgOutputMessage, DecodeError>)
    requires
        old(rd).wf(),
        old(rd).pos() == 1,
    ensures
        final(rd).wf(),
        match spec_begin(old(rd).bytes()) {
            Err(e) => r == Err::<PgOutputMessage, DecodeError>(e),
            Ok(p) => r matches Ok(m) && message_matches(m, p),
        },
{
    let final_lsn = rd.read_u64()?;
    let timestamp = rd.read_i64()?;
    let xid = rd.read_u32()?;
    Ok(PgOutputMessage::Begin(BeginMessage { final_lsn, timestamp, xid }))
}

fn decode_commit(rd: &mut Reader) -> (r: Result<PgOutputMessage, DecodeError>)
    requires
        old(rd).wf(),
        old(rd).pos() == 1,
    ensures
        final(rd).wf(),
        match spec_commit(old(rd).bytes()) {
            Err(e) => r == Err::<PgOutputMessage, DecodeError>(e),
            Ok(p) => r matches Ok(m) && message_matches(m, p),
        },
{
    let flags = rd.read_u8()?;
    let commit_lsn = rd.read_u64()?;
    let end_lsn = rd.read_u64()?;
    let timestamp = rd.read_i64()?;
    Ok(PgOutputMessage::Commit(CommitMessage { flags, commit_lsn, end_lsn, timestamp }))
}

#[verifier::loop_isolation(false)]
fn decode_relation(rd: &mut Reader) -> (r: Result<RelationMessage, DecodeError>)
    requires
        old(rd).wf(),
        old(rd).pos() == 1,
    ensures
        final(rd).wf(),
        match spec_relation(old(rd).bytes()) {
            Err(e) => r == Err::<RelationMessage, DecodeError>(e),
            Ok(p) => r matches Ok(m) && (p matches ParsedMessage::Relation(pr) && relation_matches(
                m,
                pr,
            )),
        },
{
    let rel_id = rd.read_u32()?;
    let namespace = rd.read_cstring()?;
    let name = rd.read_cstring()?;
    let replica_identity = rd.read_u8()?;
    let n = rd.read_u16()?;
    let ghost s = rd.bytes();
    let ghost start = rd.pos();
    let mut columns: Vec<ColumnInfo> = Vec::new();
    let ghost mut done: Seq<ParsedColumn> = Seq::empty();
    let mut i: u16 = 0;
    while i < n
        invariant
            rd.wf(),
            rd.bytes() == s,
            i <= n,
            columns@.len() == done.len(),
            forall|k: int|
                0 <= k < done.len() ==> column_matches(#[trigger] columns@[k], done[k]),
            spec_columns(s, start, n as nat) == (match spec_columns(
                s,
                rd.pos(),
                (n - i) as nat,
            ) {
                Err(e) => Err::<(Seq<ParsedColumn>, int), DecodeError>(e),
                Ok((rest, end)) => Ok((done + rest, end)),
            }),
        decreases n - i,
    {
        let ghost pos0 = rd.pos();
        let flags = rd.read_u8()?;
        let col_name = rd.read_cstring()?;
        let type_id = rd.read_u32()?;
        let type_modifier = rd.read_i32()?;
        proof {
            let col = ParsedColumn {
                flags,
                name: col_name@,
                type_id,
                type_modifier: type_modifier as int,
            };
            let sub = spec_columns(s, rd.pos(), (n - i - 1) as nat);
            match sub {
                Err(e) => {},
                Ok((rest, end)) => {
                    assert(done + (seq![col] + rest) =~= (done.push(col)) + rest);
                },
            }
            done = done.push(col);
        }
        columns.push(ColumnInfo { flags, name: col_name, type_id, type_modifier });
        i = i + 1;
    }
    Ok(RelationMessage { rel_id, namespace, name, replica_identity, columns })
}

#[verifier::loop_isolation(false)]
fn read_tuple_data(rd: &mut Reader) -> (r: Result<Vec<TupleValue>, DecodeError>)
    requires
        old(rd).wf(),
    ensures
        final(rd).wf(),
        final(rd).bytes() == old(rd).bytes(),
        match spec_tuple(old(rd).bytes(), old(rd).pos()) {
            Err(e) => r == Err::<Vec<TupleValue>, DecodeError>(e),
            Ok((vals, end)) => r matches Ok(v) && tuple_matches(v@, vals) && final(rd).pos()
                == end,
        },
{
    let n = rd.read_u16()?;
    let ghost s = rd.bytes();
    let ghost start = rd.pos();
    let mut tuple: Vec<TupleValue> = Vec::new();
    let ghost mut done: Seq<ParsedValue> = Seq::empty();
    let mut i: u16 = 0;
    while i < n
        invariant
            rd.wf(),
            rd.bytes() == s,
            i <= n,
            tuple@.len() == done.len(),
            forall|k: int| 0 <= k < done.len() ==> value_matches(#[trigger] tuple@[k], done[k]),
            spec_tuple_values(s, start, n as nat) == (match spec_tuple_values(
                s,
                rd.pos(),
                (n - i) as nat,
            ) {
                Err(e) => Err::<(Seq<ParsedValue>, int), DecodeError>(e),
                Ok((rest, end)) => Ok((done + rest, end)),
            }),
        decreases n - i,
    {
        let tag = rd.read_u8()?;
        if tag == COLUMN_NULL {
            proof {
                let sub = spec_tuple_values(s, rd.pos(), (n - i - 1) as nat);
                match sub {
                    Err(e) => {},
                    Ok((rest, end)) => {
                        assert(done + (seq![ParsedValue::Null] + rest) =~= (done.push(
                            ParsedValue::Null,
                        )) + rest);
                    },
                }
                done = done.push(ParsedValue::Null);
            }
            tuple.push(TupleValue::Null);
        } else if tag == COLUMN_TOAST {
            proof {
                let sub = spec_tuple_values(s, rd.pos(), (n - i - 1) as nat);
                match sub {
                    Err(e) => {},
                    Ok((rest, end)) => {
                        assert(done + (seq![ParsedValue::Toast] + rest) =~= (done.push(
                            ParsedValue::Toast,
                        )) + rest);
                    },
                }
                done = done.push(ParsedValue::Toast);
            }
            tuple.push(TupleValue::UnchangedToast);
        } else if tag == COLUMN_TEXT {
            let len = rd.read_u32()?;
            let bytes = rd.read_bytes(len as usize)?;
            proof {
                let pv = ParsedValue::Present(bytes@);
                let sub = spec_tuple_values(s, rd.pos(), (n - i - 1) as nat);
                match sub {
                    Err(e) => {},
                    Ok((rest, end)) => {
                        assert(done + (seq![pv] + rest) =~= (done.push(pv)) + rest);
                    },
                }
                done = done.push(pv);
            }
            tuple.push(TupleValue::Present(bytes));
        } else {
            return Err(DecodeError::BadColumnTag(tag));
        }
        i = i + 1;
    }
    Ok(tuple)
}

fn decode_insert(rd: &mut Reader) -> (r: Result<PgOutputMessage, DecodeError>)
    requires
        old(rd).wf(),
        old(rd).pos() == 1,
    ensures
        final(rd).wf(),
        match spec_insert(old(rd).bytes()) {
            Err(e) => r == Err::<PgOutputMessage, DecodeError>(e),
            Ok(p) => r matches Ok(m) && message_matches(m, p),
        },
{
    let rel_id = rd.read_u32()?;
    let sentinel = rd.read_u8()?;
    if sentinel != SENTINEL_NEW {
        return Err(DecodeError::ExpectedNewTuple(sentinel));
    }
    let tuple = read_tuple_data(rd)?;
    Ok(PgOutputMessage::Insert(InsertMessage { rel_id, tuple }))
}

fn decode_update(rd: &mut Reader) -> (r: Result<PgOutputMessage, DecodeError>)
    requires
        old(rd).wf(),
        old(rd).pos() == 1,
    ensures
        final(rd).wf(),
        match spec_update(old(rd).bytes()) {
            Err(e) => r == Err::<PgOutputMessage, DecodeError>(e),
            Ok(p) => r matches Ok(m) && message_matches(m, p),
        },
{
    let rel_id = rd.read_u32()?;
    let sentinel = rd.read_u8()?;
    if sentinel == SENTINEL_OLD_FULL || sentinel == SENTINEL_OLD_KEY {
        let old_tuple = read_tuple_data(rd)?;
        let new_marker = rd.read_u8()?;
        if new_marker != SENTINEL_NEW {
            return Err(DecodeError::BadTupleSentinel(new_marker));
        }
        let new_tuple = read_tuple_data(rd)?;
        Ok(
            PgOutputMessage::Update(
                UpdateMessage { rel_id, old_tuple: Some(old_tuple), new_tuple },
            ),
        )
    } else if sentinel == SENTINEL_NEW {
        let new_tuple = read_tuple_data(rd)?;
        Ok(PgOutputMessage::Update(UpdateMessage { rel_id, old_tuple: None, new_tuple }))
    } else {
        Err(DecodeError::BadTupleSentinel(sentinel))
    }
}

fn decode_delete(rd: &mut Reader) -> (r: Result<PgOutputMessage, DecodeError>)
    requires
        old(rd).wf(),
        old(rd).pos() == 1,
    ensures
        final(rd).wf(),
        match spec_delete(old(rd).bytes()) {
            Err(e) => r == Err::<PgOutputMessage, DecodeError>(e),
            Ok(p) => r matches Ok(m) && message_matches(m, p),
        },
{
    let rel_id = rd.read_u32()?;
    let sentinel = rd.read_u8()?;
    if sentinel != SENTINEL_OLD_FULL && sentinel != SENTINEL_OLD_KEY {
        return Err(DecodeError::BadTupleSentinel(sentinel));
    }
    let old_tuple = read_tuple_data(rd)?;
    Ok(PgOutputMessage::Delete(DeleteMessage { rel_id, old_tuple }))
}

#[verifier::loop_isolation(false)]
fn decode_truncate(rd: &mut Reader) -> (r: Result<PgOutputMessage, DecodeError>)
    requires
        old(rd).wf(),
        old(rd).pos() == 1,
    ensures
        final(rd).wf(),
        match spec_truncate(old(rd).bytes()) {
            Err(e) => r == Err::<PgOutputMessage, DecodeError>(e),
            Ok(p) => r matches Ok(m) && message_matches(m, p),
        },
{
    let n = rd.read_u32()?;
    let options = rd.read_u8()?;
    let ghost s = rd.bytes();
    if rd.remaining() / 4 < n as usize {
        proof {
            assert(6 + 4 * (n as int) > s.len());
        }
        return Err(DecodeError::TruncatedFrame);
    }
    proof {
        assert(6 + 4 * (n as int) <= s.len());
    }
    let mut rel_ids: Vec<u32> = Vec::new();
    let mut i: u32 = 0;
    while i < n
        invariant
            rd.wf(),
            rd.bytes() == s,
            i <= n,
            rd.pos() == 6 + 4 * i,
            6 + 4 * (n as int) <= s.len(),
            rel_ids@.len() == i,
            forall|k: int| 0 <= k < i ==> rel_ids@[k] == be4(s, 6 + 4 * k) as u32,
        decreases n - i,
    {
        let id = match rd.read_u32() {
            Ok(v) => v,
            Err(_) => {
                proof {
                    assert(false);
                }
                0
            },
        };
        rel_ids.push(id);
        i = i + 1;
    }
    proof {
        assert(rel_ids@ =~= Seq::new(n as nat, |k: int| be4(s, 6 + 4 * k) as u32));
    }
    Ok(PgOutputMessage::Truncate(TruncateMessage { options, rel_ids }))
}

fn decode_type(rd: &mut Reader) -> (r: Result<PgOutputMessage, DecodeError>)
    requires
        old(rd).wf(),
        old(rd).pos() == 1,
    ensures
        final(rd).wf(),
        match spec_type(old(rd).bytes()) {
            Err(e) => r == Err::<PgOutputMessage, DecodeError>(e),
            Ok(p) => r matches Ok(m) && message_matches(m, p),
        },
{
    let type_id = rd.read_u32()?;
    let namespace = rd.read_cstring()?;
    let name = rd.read_cstring()?;
    Ok(PgOutputMessage::Type(TypeMessage { type_id, namespace, name }))
}

fn decode_origin(rd: &mut Reader) -> (r: Result<PgOutputMessage, DecodeError>)
    requires
        old(rd).wf(),
        old(rd).pos() == 1,
    ensures
        final(rd).wf(),
        match spec_origin(old(rd).bytes()) {
            Err(e) => r == Err::<PgOutputMessage, DecodeError>(e),
            Ok(p) => r matches Ok(m) && message_matches(m, p),
        },
{
    let lsn = rd.read_u64()?;
    let name = rd.read_cstring()?;
    Ok(PgOutputMessage::Origin(OriginMessage { lsn, name }))
}

fn decode_logical_message(rd: &mut Reader) -> (r: Result<PgOutputMessage, DecodeError>)
    requires
        old(rd).wf(),
        old(rd).pos() == 1,
    ensures
        final(rd).wf(),
        match spec_logical_message(old(rd).bytes()) {
            Err(e) => r == Err::<PgOutputMessage, DecodeError>(e),
            Ok(p) => r matches Ok(m) && message_matches(m, p),
        },
{
    let flags = rd.read_u8()?;
    let lsn = rd.read_u64()?;
    let prefix = rd.read_cstring()?;
    let content_len = rd.read_u32()?;
    let content = rd.read_bytes(content_len as usize)?;
    Ok(
        PgOutputMessage::Message(
            LogicalMessage { transactional: (flags & 1) == 1, lsn, prefix, content },
        ),
    )
}

} // verus!
