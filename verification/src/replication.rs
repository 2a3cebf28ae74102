//! The consumer-facing reader core: decodes data payloads through the
//! relation cache, shapes row-change events into change records for the
//! formatting layer, and decides acknowledgement. The surrounding loop owns
//! the connection; everything it must decide, it asks this module.

use vstd::prelude::*;

use crate::decoder::{
    known_relations, spec_decode, tuple_event_rel, tuple_matches, value_matches, ParsedMessage,
    ParsedValue, PgOutputDecoder,
};
use crate::errors::DecodeError;
use crate::messages::{ColumnInfo, PgOutputMessage, RelationMessage, TupleValue};
use crate::values::{convert_pg_value, pg_value_matches, PgValue};

verus! {

/// The kind of row change a record describes.
#[derive(Debug, Clone, Copy, PartialEq, Eq, Structural)]
pub enum ChangeOp {
    Create,
    Update,
    Delete,
}

/// Source metadata carried on every change record.
pub struct SourceInfo {
    pub db: String,
    pub schema: String,
    pub table: String,
    pub lsn: u64,
    pub ts_ms: i64,
}

/// One shaped row-change record: the structured value the formatting layer
/// renders.
pub struct ChangeRecord {
    pub op: ChangeOp,
    pub before: Option<Vec<(String, PgValue)>>,
    pub after: Option<Vec<(String, PgValue)>>,
    pub source: SourceInfo,
    pub ts_ms: i64,
    pub ts_us: Option<i64>,
    pub ts_ns: Option<i64>,
}

/// The column bytes a tuple value hands to conversion: an absent value for
/// NULL and for an unchanged out-of-line column.
pub open spec fn tuple_value_data(v: TupleValue) -> Option<Seq<u8>> {
    match v {
        TupleValue::Null => None,
        TupleValue::UnchangedToast => None,
        TupleValue::Present(b) => Some(b@),
    }
}

/// A shaped row pairs each column name with the converted value, over the
/// leading columns both the schema and the tuple cover.
pub open spec fn row_matches(
    row: Seq<(String, PgValue)>,
    cols: Seq<ColumnInfo>,
    vals: Seq<TupleValue>,
) -> bool {
    let n = if vals.len() <= cols.len() {
        vals.len()
    } else {
        cols.len()
    };
    &&& row.len() == n
    &&& forall|i: int|
        0 <= i < n ==> (#[trigger] row[i]).0@ == cols[i].name@ && pg_value_matches(
            row[i].1,
            tuple_value_data(vals[i]),
            cols[i].type_id,
        )
}

pub open spec fn source_matches(
    s: SourceInfo,
    rel: RelationMessage,
    db: Seq<char>,
    lsn: u64,
    ts_ms: i64,
) -> bool {
    &&& s.db@ == db
    &&& s.schema@ == rel.namespace@
    &&& s.table@ == rel.name@
    &&& s.lsn == lsn
    &&& s.ts_ms == ts_ms
}

/// The column bytes a specification-level tuple value hands to conversion.
pub open spec fn parsed_value_data(v: ParsedValue) -> Option<Seq<u8>> {
    match v {
        ParsedValue::Null => None,
        ParsedValue::Toast => None,
        ParsedValue::Present(b) => Some(b),
    }
}

/// `row_matches`, stated against the specification-level tuple.
pub open spec fn row_matches_parsed(
    row: Seq<(String, PgValue)>,
    cols: Seq<ColumnInfo>,
    vals: Seq<ParsedValue>,
) -> bool {
    let n = if vals.len() <= cols.len() {
        vals.len()
    } else {
        cols.len()
    };
    &&& row.len() == n
    &&& forall|i: int|
        0 <= i < n ==> (#[trigger] row[i]).0@ == cols[i].name@ && pg_value_matches(
            row[i].1,
            parsed_value_data(vals[i]),
            cols[i].type_id,
        )
}

/// A decoded tuple and its specification-level reading hand the same bytes
/// to conversion, so a row shaped from one matches the other.
proof fn lemma_row_bridge(
    row: Seq<(String, PgValue)>,
    cols: Seq<ColumnInfo>,
    ev: Seq<TupleValue>,
    pv: Seq<ParsedValue>,
)
    requires
        row_matches(row, cols, ev),
        tuple_matches(ev, pv),
    ensures
        row_matches_parsed(row, cols, pv),
{
    assert forall|i: int| 0 <= i < row.len() implies (#[trigger] row[i]).0@ == cols[i].name@
        && pg_value_matches(row[i].1, parsed_value_data(pv[i]), cols[i].type_id) by {
        assert(value_matches(ev[i], pv[i]));
        assert(tuple_value_data(ev[i]) == parsed_value_data(pv[i]));
    }
}

/// How a specification-level decoded message shapes into a record, given
/// the relation cache at the time.
pub open spec fn outcome_record_matches(
    rec: Option<ChangeRecord>,
    p: ParsedMessage,
    cache: Map<u32, RelationMessage>,
    db: Seq<char>,
    lsn: u64,
    ts_ms: i64,
    ts_us: i64,
    ts_ns: i64,
) -> bool {
    match p {
        ParsedMessage::Insert(rid, vals) => cache.contains_key(rid) && (rec matches Some(r)
            && r.op == ChangeOp::Create && r.before is None && (r.after matches Some(row)
            && row_matches_parsed(row@, cache[rid].columns@, vals)) && source_matches(
            r.source,
            cache[rid],
            db,
            lsn,
            ts_ms,
        ) && r.ts_ms == ts_ms && r.ts_us == Some(ts_us) && r.ts_ns == Some(ts_ns)),
        ParsedMessage::Update(rid, old_vals, new_vals) => cache.contains_key(rid) && (rec matches Some(
            r,
        ) && r.op == ChangeOp::Update && (match (r.before, old_vals) {
            (Some(row), Some(vals)) => row_matches_parsed(row@, cache[rid].columns@, vals),
            (None, None) => true,
            _ => false,
        }) && (r.after matches Some(row) && row_matches_parsed(
            row@,
            cache[rid].columns@,
            new_vals,
        )) && source_matches(r.source, cache[rid], db, lsn, ts_ms) && r.ts_ms == ts_ms && r.ts_us
            == Some(ts_us) && r.ts_ns == Some(ts_ns)),
        ParsedMessage::Delete(rid, vals) => cache.contains_key(rid) && (rec matches Some(r)
            && r.op == ChangeOp::Delete && (r.before matches Some(row) && row_matches_parsed(
            row@,
            cache[rid].columns@,
            vals,
        )) && r.after is None && source_matches(r.source, cache[rid], db, lsn, ts_ms) && r.ts_ms
            == ts_ms && r.ts_us == Some(ts_us) && r.ts_ns == Some(ts_ns)),
        _ => rec is None,
    }
}

/// Builds the name/value row for one tuple against its relation's columns.
#[verifier::loop_isolation(false)]
fn build_row(cols: &Vec<ColumnInfo>, vals: &Vec<TupleValue>) -> (r: Vec<(String, PgValue)>)
    ensures
        row_matches(r@, cols@, vals@),
{
    let n = if vals.len() <= cols.len() {
        vals.len()
    } else {
        cols.len()
    };
    let mut row: Vec<(String, PgValue)> = Vec::new();
    let mut i: usize = 0;
    while i < n
        invariant
            0 <= i <= n,
            n == (if vals@.len() <= cols@.len() {
                vals@.len()
            } else {
                cols@.len()
            }),
            row@.len() == i,
            forall|k: int|
                0 <= k < i ==> (#[trigger] row@[k]).0@ == cols@[k].name@ && pg_value_matches(
                    row@[k].1,
                    tuple_value_data(vals@[k]),
                    cols@[k].type_id,
                ),
        decreases n - i,
    {
        let c = &cols[i];
        let v = match &vals[i] {
            TupleValue::Null => convert_pg_value(None, c.type_id),
            TupleValue::UnchangedToast => convert_pg_value(None, c.type_id),
            TupleValue::Present(b) => convert_pg_value(Some(b.as_slice()), c.type_id),
        };
        row.push((c.name.clone(), v));
        i = i + 1;
    }
    row
}

/// How a decoded message shapes into a change record: tuple events with a
/// cached relation become Create/Update/Delete records; everything else is
/// no record; a tuple event whose relation was never announced is the
/// protocol violation the decoder taxonomy names.
pub open spec fn convert_result_matches(
    r: Result<Option<ChangeRecord>, DecodeError>,
    msg: PgOutputMessage,
    cache: Map<u32, RelationMessage>,
    db: Seq<char>,
    lsn: u64,
    ts_ms: i64,
    ts_us: i64,
    ts_ns: i64,
) -> bool {
    match msg {
        PgOutputMessage::Insert(im) => {
            if cache.contains_key(im.rel_id) {
                r matches Ok(Some(rec)) && rec.op == ChangeOp::Create && rec.before is None
                    && (rec.after matches Some(row) && row_matches(
                    row@,
                    cache[im.rel_id].columns@,
                    im.tuple@,
                )) && source_matches(rec.source, cache[im.rel_id], db, lsn, ts_ms) && rec.ts_ms
                    == ts_ms && rec.ts_us == Some(ts_us) && rec.ts_ns == Some(ts_ns)
            } else {
                r == Err::<Option<ChangeRecord>, DecodeError>(
                    DecodeError::UnknownRelation(im.rel_id),
                )
            }
        },
        PgOutputMessage::Update(um) => {
            if cache.contains_key(um.rel_id) {
                r matches Ok(Some(rec)) && rec.op == ChangeOp::Update && (match (
                    rec.before,
                    um.old_tuple,
                ) {
                    (Some(row), Some(vals)) => row_matches(
                        row@,
                        cache[um.rel_id].columns@,
                        vals@,
                    ),
                    (None, None) => true,
                    _ => false,
                }) && (rec.after matches Some(row) && row_matches(
                    row@,
                    cache[um.rel_id].columns@,
                    um.new_tuple@,
                )) && source_matches(rec.source, cache[um.rel_id], db, lsn, ts_ms) && rec.ts_ms
                    == ts_ms && rec.ts_us == Some(ts_us) && rec.ts_ns == Some(ts_ns)
            } else {
                r == Err::<Option<ChangeRecord>, DecodeError>(
                    DecodeError::UnknownRelation(um.rel_id),
                )
            }
        },
        PgOutputMessage::Delete(dm) => {
            if cache.contains_key(dm.rel_id) {
                r matches Ok(Some(rec)) && rec.op == ChangeOp::Delete && (rec.before matches Some(
                    row,
                ) && row_matches(row@, cache[dm.rel_id].columns@, dm.old_tuple@)) && rec.after
                    is None && source_matches(rec.source, cache[dm.rel_id], db, lsn, ts_ms)
                    && rec.ts_ms == ts_ms && rec.ts_us == Some(ts_us) && rec.ts_ns == Some(ts_ns)
            } else {
                r == Err::<Option<ChangeRecord>, DecodeError>(
                    DecodeError::UnknownRelation(dm.rel_id),
                )
            }
        },
        _ => r matches Ok(rec) && rec is None,
    }
}

/// Shapes one decoded message into a change record, resolving the relation
/// id against the decoder's cache. The wall-clock timestamps come from the
/// caller, so the shaping itself stays a pure function.
pub fn convert_message(
    msg: &PgOutputMessage,
    decoder: &PgOutputDecoder,
    lsn: u64,
    db: &str,
    ts_ms: i64,
    ts_us: i64,
    ts_ns: i64,
) -> (r: Result<Option<ChangeRecord>, DecodeError>)
    ensures
        convert_result_matches(r, *msg, decoder.cache(), db@, lsn, ts_ms, ts_us, ts_ns),
{
    match msg {
        PgOutputMessage::Insert(im) => {
            let rel = match decoder.get_relation(im.rel_id) {
                Some(rel) => rel,
                None => {
                    return Err(DecodeError::UnknownRelation(im.rel_id));
                },
            };
            let row = build_row(&rel.columns, &im.tuple);
            Ok(
                Some(
                    ChangeRecord {
                        op: ChangeOp::Create,
                        before: None,
                        after: Some(row),
                        source: make_source(rel, db, lsn, ts_ms),
                        ts_ms,
                        ts_us: Some(ts_us),
                        ts_ns: Some(ts_ns),
                    },
                ),
            )
        },
        PgOutputMessage::Update(um) => {
            let rel = match decoder.get_relation(um.rel_id) {
                Some(rel) => rel,
                None => {
                    return Err(DecodeError::UnknownRelation(um.rel_id));
                },
            };
            let before = match &um.old_tuple {
                Some(vals) => Some(build_row(&rel.columns, vals)),
                None => None,
            };
            let row = build_row(&rel.columns, &um.new_tuple);
            Ok(
                Some(
                    ChangeRecord {
                        op: ChangeOp::Update,
                        before,
                        after: Some(row),
                        source: make_source(rel, db, lsn, ts_ms),
                        ts_ms,
                        ts_us: Some(ts_us),
                        ts_ns: Some(ts_ns),
                    },
                ),
            )
        },
        PgOutputMessage::Delete(dm) => {
            let rel = match decoder.get_relation(dm.rel_id) {
                Some(rel) => rel,
                None => {
                    return Err(DecodeError::UnknownRelation(dm.rel_id));
                },
            };
            let row = build_row(&rel.columns, &dm.old_tuple);
            Ok(
                Some(
                    ChangeRecord {
                        op: ChangeOp::Delete,
                        before: Some(row),
                        after: None,
                        source: make_source(rel, db, lsn, ts_ms),
                        ts_ms,
                        ts_us: Some(ts_us),
                        ts_ns: Some(ts_ns),
                    },
                ),
            )
        },
        _ => Ok(None),
    }
}

fn make_source(rel: &RelationMessage, db: &str, lsn: u64, ts_ms: i64) -> (s: SourceInfo)
    ensures
        source_matches(s, *rel, db@, lsn, ts_ms),
{
    SourceInfo {
        db: db.to_owned(),
        schema: rel.namespace.clone(),
        table: rel.name.clone(),
        lsn,
        ts_ms,
    }
}

/// What one data payload produced: possibly a shaped record, and possibly
/// a position to acknowledge right away.
pub struct XLogOutcome {
    pub record: Option<ChangeRecord>,
    pub ack_now: Option<u64>,
}

/// The reader core: the decoder with its relation cache, the
/// acknowledgement mode, and the pending position under manual mode.
pub struct LogicalReplicationReader {
    decoder: PgOutputDecoder,
    auto_acknowledge: bool,
    pending_lsn: Option<u64>,
    stopped: bool,
}

impl LogicalReplicationReader {
    pub closed spec fn history(self) -> Seq<Seq<u8>> {
        self.decoder.history()
    }

    pub closed spec fn cache(self) -> Map<u32, RelationMessage> {
        self.decoder.cache()
    }

    pub closed spec fn auto_ack(self) -> bool {
        self.auto_acknowledge
    }

    pub closed spec fn pending(self) -> Option<u64> {
        self.pending_lsn
    }

    pub closed spec fn is_stopped(self) -> bool {
        self.stopped
    }

    pub open spec fn wf(self) -> bool {
        self.cache().dom() == known_relations(self.history())
    }

    pub fn new(auto_acknowledge: bool) -> (r: LogicalReplicationReader)
        ensures
            r.wf(),
            r.auto_ack() == auto_acknowledge,
            r.pending() is None,
            !r.is_stopped(),
            r.history() == Seq::<Seq<u8>>::empty(),
    {
        LogicalReplicationReader {
            decoder: PgOutputDecoder::new(),
            auto_acknowledge,
            pending_lsn: None,
            stopped: false,
        }
    }

    /// Handles one data payload: decodes it, shapes any row change into a
    /// record, and decides acknowledgement. Under automatic mode every
    /// successfully decoded payload is acknowledged at its `wal_end`; under
    /// manual mode the position is parked as pending instead. A tuple event
    /// for a relation never announced in the stream fails, which is what
    /// the relation-before-tuple guarantee rests on. Any failure also marks
    /// the reader stopped: a decode error terminates the session.
    pub fn handle_xlog(
        &mut self,
        data: &[u8],
        wal_end: u64,
        db: &str,
        ts_ms: i64,
        ts_us: i64,
        ts_ns: i64,
    ) -> (r: Result<XLogOutcome, DecodeError>)
        requires
            old(self).wf(),
        ensures
            final(self).wf(),
            final(self).history() == old(self).history().push(data@),
            final(self).auto_ack() == old(self).auto_ack(),
            final(self).is_stopped() == (old(self).is_stopped() || r is Err),
            (match spec_decode(data@) {
                Err(e) => r == Err::<XLogOutcome, DecodeError>(e) && final(self).pending()
                    == old(self).pending(),
                Ok(p) => {
                    &&& (match tuple_event_rel(Ok(p)) {
                        Some(rid) => if known_relations(old(self).history()).contains(rid) {
                            r is Ok
                        } else {
                            r == Err::<XLogOutcome, DecodeError>(
                                DecodeError::UnknownRelation(rid),
                            ) && final(self).pending() == old(self).pending()
                        },
                        None => r is Ok,
                    })
                    &&& (r matches Ok(outcome) ==> {
                        &&& outcome.ack_now == (if old(self).auto_ack() {
                            Some(wal_end)
                        } else {
                            None::<u64>
                        })
                        &&& final(self).pending() == (if old(self).auto_ack() {
                            old(self).pending()
                        } else {
                            Some(wal_end)
                        })
                        &&& outcome_record_matches(
                            outcome.record,
                            p,
                            old(self).cache(),
                            db@,
                            wal_end,
                            ts_ms,
                            ts_us,
                            ts_ns,
                        )
                    })
                },
            }),
    {
        let msg = match self.decoder.decode(data) {
            Ok(m) => m,
            Err(e) => {
                self.stopped = true;
                return Err(e);
            },
        };
        let record = match convert_message(&msg, &self.decoder, wal_end, db, ts_ms, ts_us, ts_ns) {
            Ok(rec) => rec,
            Err(e) => {
                self.stopped = true;
                return Err(e);
            },
        };
        proof {
            let p = spec_decode(data@)->Ok_0;
            let cache = old(self).cache();
            match p {
                ParsedMessage::Insert(rid, vals) => {
                    let im = (msg->Insert_0);
                    assert(cache.contains_key(rid));
                    let rec0 = record->Some_0;
                    lemma_row_bridge(
                        (rec0.after->Some_0)@,
                        cache[rid].columns@,
                        im.tuple@,
                        vals,
                    );
                },
                ParsedMessage::Update(rid, old_vals, new_vals) => {
                    let um = (msg->Update_0);
                    assert(cache.contains_key(rid));
                    let rec0 = record->Some_0;
                    lemma_row_bridge(
                        (rec0.after->Some_0)@,
                        cache[rid].columns@,
                        um.new_tuple@,
                        new_vals,
                    );
                    match (rec0.before, old_vals) {
                        (Some(row), Some(pvals)) => {
                            lemma_row_bridge(
                                row@,
                                cache[rid].columns@,
                                (um.old_tuple->Some_0)@,
                                pvals,
                            );
                        },
                        _ => {},
                    }
                },
                ParsedMessage::Delete(rid, vals) => {
                    let dm = (msg->Delete_0);
                    assert(cache.contains_key(rid));
                    let rec0 = record->Some_0;
                    lemma_row_bridge(
                        (rec0.before->Some_0)@,
                        cache[rid].columns@,
                        dm.old_tuple@,
                        vals,
                    );
                },
                _ => {},
            }
        }
        let ack_now = if self.auto_acknowledge {
            Some(wal_end)
        } else {
            self.pending_lsn = Some(wal_end);
            None
        };
        Ok(XLogOutcome { record, ack_now })
    }

    /// Resolves a manual acknowledgement: an explicit position wins, else
    /// the pending one is taken; with neither, the call is a no-op. The
    /// returned position is what the session should report applied, and
    /// the pending position is consumed.
    pub fn acknowledge(&mut self, lsn: Option<u64>) -> (r: Option<u64>)
        ensures
            final(self).wf() == old(self).wf(),
            final(self).history() == old(self).history(),
            final(self).cache() == old(self).cache(),
            final(self).auto_ack() == old(self).auto_ack(),
            final(self).is_stopped() == old(self).is_stopped(),
            (match lsn {
                Some(l) => r == Some(l) && final(self).pending() is None,
                None => (match old(self).pending() {
                    Some(p) => r == Some(p) && final(self).pending() is None,
                    None => r is None && final(self).pending() is None,
                }),
            }),
    {
        let r = match lsn {
            Some(l) => Some(l),
            None => self.pending_lsn,
        };
        self.pending_lsn = None;
        r
    }

    /// The position parked by manual mode and not yet acknowledged.
    pub fn pending_lsn(&self) -> (r: Option<u64>)
        ensures
            r == self.pending(),
    {
        self.pending_lsn
    }

    /// Marks the reader stopped: the surrounding loop returns nothing
    /// further once this is set.
    pub fn stop(&mut self)
        ensures
            final(self).wf() == old(self).wf(),
            final(self).history() == old(self).history(),
            final(self).cache() == old(self).cache(),
            final(self).auto_ack() == old(self).auto_ack(),
            final(self).pending() == old(self).pending(),
            final(self).is_stopped(),
    {
        self.stopped = true;
    }

    /// Whether the reader has been stopped.
    pub fn stopped(&self) -> (r: bool)
        ensures
            r == self.is_stopped(),
    {
        self.stopped
    }
}

} // verus!
