//! The replication session state machine: dispatch of inbound `CopyData`
//! payloads (`'w'` data, `'k'` keepalive), the stop-at policy, and the
//! outbound standby status update. The session is pure: the surrounding
//! loop reads frames, hands them in, and performs the returned actions.

use vstd::prelude::*;

use crate::errors::ProtocolError;
use crate::progress::{spec_apply_ack, ProgressLedger};
use crate::reader::{be8, i64_of_bits, Reader};

verus! {

pub const COPY_TAG_XLOG_DATA: u8 = 119;

pub const COPY_TAG_KEEPALIVE: u8 = 107;

pub const COPY_TAG_STATUS_UPDATE: u8 = 114;

/// One inbound frame of the streaming sub-protocol, already parsed.
#[derive(Debug, Clone, PartialEq, Eq)]
pub enum WireFrame {
    XLogData { wal_start: u64, wal_end: u64, server_time: i64, data: Vec<u8> },
    Keepalive { wal_end: u64, server_time: i64, reply_requested: bool },
}

/// What a session hands to its consumer.
#[derive(Debug, Clone, PartialEq, Eq)]
pub enum ReplicationEvent {
    XLogData { wal_start: u64, wal_end: u64, server_time: i64, data: Vec<u8> },
    KeepAlive { wal_end: u64, server_time: i64, reply_requested: bool },
    StoppedAt { lsn: u64 },
}

/// Specification-level inbound frame.
pub enum ParsedFrame {
    XLog { wal_start: u64, wal_end: u64, server_time: i64, data: Seq<u8> },
    Keepalive { wal_end: u64, server_time: i64, reply_requested: bool },
}

/// What parsing one `CopyData` payload yields.
pub open spec fn spec_copy_data(s: Seq<u8>) -> Result<ParsedFrame, ProtocolError> {
    if s.len() == 0 {
        Err(ProtocolError::TruncatedCopyData)
    } else if s[0] == COPY_TAG_XLOG_DATA {
        if s.len() < 25 {
            Err(ProtocolError::TruncatedCopyData)
        } else {
            Ok(
                ParsedFrame::XLog {
                    wal_start: be8(s, 1) as u64,
                    wal_end: be8(s, 9) as u64,
                    server_time: i64_of_bits(be8(s, 17)) as i64,
                    data: s.subrange(25, s.len() as int),
                },
            )
        }
    } else if s[0] == COPY_TAG_KEEPALIVE {
        if s.len() < 18 {
            Err(ProtocolError::TruncatedCopyData)
        } else {
            Ok(
                ParsedFrame::Keepalive {
                    wal_end: be8(s, 1) as u64,
                    server_time: i64_of_bits(be8(s, 9)) as i64,
                    reply_requested: s[17] != 0,
                },
            )
        }
    } else {
        Err(ProtocolError::UnknownCopyDataTag(s[0]))
    }
}

pub open spec fn frame_matches(f: WireFrame, p: ParsedFrame) -> bool {
    match p {
        ParsedFrame::XLog { wal_start, wal_end, server_time, data } => f matches WireFrame::XLogData {
            wal_start: ws,
            wal_end: we,
            server_time: st,
            data: d,
        } && ws == wal_start && we == wal_end && st == server_time && d@ == data,
        ParsedFrame::Keepalive { wal_end, server_time, reply_requested } => f matches WireFrame::Keepalive {
            wal_end: we,
            server_time: st,
            reply_requested: rr,
        } && we == wal_end && st == server_time && rr == reply_requested,
    }
}

/// Parses the payload of one inbound `CopyData` frame.
pub fn parse_copy_data(payload: &[u8]) -> (r: Result<WireFrame, ProtocolError>)
    ensures
        (match spec_copy_data(payload@) {
            Err(e) => r == Err::<WireFrame, ProtocolError>(e),
            Ok(p) => r matches Ok(f) && frame_matches(f, p),
        }),
{
    let mut rd = Reader::new(payload);
    let tag = match rd.read_u8() {
        Ok(t) => t,
        Err(_) => {
            return Err(ProtocolError::TruncatedCopyData);
        },
    };
    if tag == COPY_TAG_XLOG_DATA {
        let r = read_xlog_fields(&mut rd);
        match r {
            Ok(f) => Ok(f),
            Err(e) => Err(e),
        }
    } else if tag == COPY_TAG_KEEPALIVE {
        let r = read_keepalive_fields(&mut rd);
        match r {
            Ok(f) => Ok(f),
            Err(e) => Err(e),
        }
    } else {
        Err(ProtocolError::UnknownCopyDataTag(tag))
    }
}

fn read_xlog_fields(rd: &mut Reader) -> (r: Result<WireFrame, ProtocolError>)
    requires
        old(rd).wf(),
        old(rd).pos() == 1,
        old(rd).bytes().len() >= 1,
        old(rd).bytes()[0] == COPY_TAG_XLOG_DATA,
    ensures
        (match spec_copy_data(old(rd).bytes()) {
            Err(e) => r == Err::<WireFrame, ProtocolError>(e),
            Ok(p) => r matches Ok(f) && frame_matches(f, p),
        }),
{
    let wal_start = match rd.read_u64() {
        Ok(v) => v,
        Err(_) => {
            return Err(ProtocolError::TruncatedCopyData);
        },
    };
    let wal_end = match rd.read_u64() {
        Ok(v) => v,
        Err(_) => {
            return Err(ProtocolError::TruncatedCopyData);
        },
    };
    let server_time = match rd.read_i64() {
        Ok(v) => v,
        Err(_) => {
            return Err(ProtocolError::TruncatedCopyData);
        },
    };
    let n = rd.remaining();
    let data = match rd.read_bytes(n) {
        Ok(v) => v,
        Err(_) => {
            proof {
                assert(false);
            }
            Vec::new()
        },
    };
    Ok(WireFrame::XLogData { wal_start, wal_end, server_time, data })
}

fn read_keepalive_fields(rd: &mut Reader) -> (r: Result<WireFrame, ProtocolError>)
    requires
        old(rd).wf(),
        old(rd).pos() == 1,
        old(rd).bytes().len() >= 1,
        old(rd).bytes()[0] == COPY_TAG_KEEPALIVE,
    ensures
        (match spec_copy_data(old(rd).bytes()) {
            Err(e) => r == Err::<WireFrame, ProtocolError>(e),
            Ok(p) => r matches Ok(f) && frame_matches(f, p),
        }),
{
    let wal_end = match rd.read_u64() {
        Ok(v) => v,
        Err(_) => {
            return Err(ProtocolError::TruncatedCopyData);
        },
    };
    let server_time = match rd.read_i64() {
        Ok(v) => v,
        Err(_) => {
            return Err(ProtocolError::TruncatedCopyData);
        },
    };
    let reply = match rd.read_u8() {
        Ok(v) => v,
        Err(_) => {
            return Err(ProtocolError::TruncatedCopyData);
        },
    };
    Ok(WireFrame::Keepalive { wal_end, server_time, reply_requested: reply != 0 })
}

/// The session's lifecycle phase.
#[derive(Debug, Clone, Copy, PartialEq, Eq, Structural)]
pub enum Phase {
    Streaming,
    Closing,
    Terminated,
}

/// The replication session: phase, progress ledger, stop policy and the
/// pending-status flag.
#[derive(Debug, Clone, Copy, PartialEq, Eq, Structural)]
pub struct Session {
    pub phase: Phase,
    pub ledger: ProgressLedger,
    pub stop_at_lsn: Option<u64>,
    pub status_due: bool,
}

/// The stop policy fires: a stop position is set and this frame reaches it.
pub open spec fn stop_reached(s: Session, wal_end: u64) -> bool {
    s.stop_at_lsn matches Some(l) && wal_end >= l
}

/// The session after one data frame in the Streaming phase: the write
/// watermark advances, and reaching the stop position moves the session to
/// Closing and asks for a final status.
pub open spec fn spec_xlog_next(s: Session, wal_end: u64) -> Session {
    if !(s.phase is Streaming) {
        s
    } else {
        Session {
            phase: if stop_reached(s, wal_end) {
                Phase::Closing
            } else {
                Phase::Streaming
            },
            ledger: ProgressLedger {
                last_written: if s.ledger.last_written >= wal_end {
                    s.ledger.last_written
                } else {
                    wal_end
                },
                ..s.ledger
            },
            stop_at_lsn: s.stop_at_lsn,
            status_due: s.status_due || stop_reached(s, wal_end),
        }
    }
}

/// The `wal_end` positions of the data events one data frame emits.
pub open spec fn spec_xlog_events(s: Session, wal_end: u64) -> Seq<u64> {
    if s.phase is Streaming {
        seq![wal_end]
    } else {
        Seq::empty()
    }
}

/// The `wal_end` positions of all data events emitted over a whole inbound
/// run of data frames.
pub open spec fn spec_stream_outputs(s: Session, ends: Seq<u64>) -> Seq<u64>
    decreases ends.len(),
{
    if ends.len() == 0 {
        Seq::empty()
    } else {
        spec_xlog_events(s, ends.first()) + spec_stream_outputs(
            spec_xlog_next(s, ends.first()),
            ends.drop_first(),
        )
    }
}

pub open spec fn non_decreasing(s: Seq<u64>) -> bool {
    forall|i: int, j: int| 0 <= i < j < s.len() ==> s[i] <= s[j]
}

/// Event monotonicity: a session delivers data events in server order with
/// their positions untouched, so a stream whose frames arrive with
/// non-decreasing `wal_end` is emitted with non-decreasing `wal_end`.
pub proof fn lemma_events_monotone(s: Session, ends: Seq<u64>)
    requires
        non_decreasing(ends),
    ensures
        non_decreasing(spec_stream_outputs(s, ends)),
        spec_stream_outputs(s, ends).len() > 0 && ends.len() > 0 ==> spec_stream_outputs(
            s,
            ends,
        ).first() >= ends.first(),
    decreases ends.len(),
{
    if ends.len() > 0 {
        let e0 = ends.first();
        let s1 = spec_xlog_next(s, e0);
        let rest = ends.drop_first();
        assert(non_decreasing(rest)) by {
            assert(forall|i: int, j: int|
                0 <= i < j < rest.len() ==> rest[i] == ends[i + 1] && rest[j] == ends[j + 1]);
        }
        lemma_events_monotone(s1, rest);
        let head = spec_xlog_events(s, e0);
        let tail = spec_stream_outputs(s1, rest);
        if rest.len() > 0 {
            assert(rest.first() == ends[1]);
            assert(ends[1] >= e0);
        }
        assert(forall|k: int|
            0 <= k < tail.len() ==> (head + tail)[head.len() + k] == #[trigger] tail[k]);
    }
}

/// Stop-at semantics, terminal half: once the session has left the
/// Streaming phase (as it does the moment the stop position is reached), no
/// further data event is emitted, whatever else arrives.
pub proof fn lemma_stopped_emits_nothing(s: Session, ends: Seq<u64>)
    requires
        !(s.phase is Streaming),
    ensures
        spec_stream_outputs(s, ends) == Seq::<u64>::empty(),
    decreases ends.len(),
{
    if ends.len() > 0 {
        lemma_stopped_emits_nothing(spec_xlog_next(s, ends.first()), ends.drop_first());
        assert(spec_stream_outputs(s, ends) =~= Seq::<u64>::empty());
    }
}

/// Stop-at semantics: with `stop_at_lsn = L`, a streaming session emits the
/// data frame whose `wal_end` first reaches `L`, and emits no data event
/// for anything that follows it.
pub proof fn lemma_stop_at_semantics(s: Session, wal_end: u64, rest: Seq<u64>)
    requires
        s.phase is Streaming,
        stop_reached(s, wal_end),
    ensures
        spec_stream_outputs(s, seq![wal_end] + rest) == seq![wal_end],
{
    let ends = seq![wal_end] + rest;
    assert(ends.first() == wal_end);
    assert(ends.drop_first() =~= rest);
    lemma_stopped_emits_nothing(spec_xlog_next(s, wal_end), rest);
    assert(spec_stream_outputs(s, ends) =~= seq![wal_end]);
}

/// What the session asks its caller to do after one step.
#[derive(Debug, Clone, Copy, PartialEq, Eq, Structural)]
pub struct StepActions {
    /// Send a standby status update at the next opportunity.
    pub send_status: bool,
    /// Send `CopyDone`: the session is closing.
    pub send_copy_done: bool,
}

impl Session {
    pub open spec fn wf(self) -> bool {
        self.ledger.wf()
    }

    /// A session that has just entered the Streaming phase.
    pub fn new(start_lsn: u64, stop_at_lsn: Option<u64>) -> (r: Session)
        ensures
            r.wf(),
            r.phase is Streaming,
            r.ledger.last_written == start_lsn,
            r.ledger.last_flushed == start_lsn,
            r.ledger.last_applied == start_lsn,
            r.stop_at_lsn == stop_at_lsn,
            !r.status_due,
    {
        Session {
            phase: Phase::Streaming,
            ledger: ProgressLedger::new(start_lsn),
            stop_at_lsn,
            status_due: false,
        }
    }

    /// Feeds one parsed inbound frame through the state table. Events come
    /// back in emission order; data frames advance `last_written`; reaching
    /// the stop position emits the data event, then the terminal marker,
    /// and closes; keepalives asking for a reply schedule a status update.
    /// Outside the Streaming phase frames are dropped.
    pub fn handle_frame(&mut self, f: WireFrame) -> (r: (Vec<ReplicationEvent>, StepActions))
        requires
            old(self).wf(),
        ensures
            final(self).wf(),
            final(self).advanced(*old(self)),
            (match f {
                WireFrame::XLogData { wal_start, wal_end, server_time, data } => {
                    &&& *final(self) == spec_xlog_next(*old(self), wal_end)
                    &&& (if old(self).phase is Streaming {
                        &&& r.0@.len() == spec_xlog_events(*old(self), wal_end).len() + (
                        if stop_reached(*old(self), wal_end) {
                            1int
                        } else {
                            0int
                        })
                        &&& (r.0@[0] matches ReplicationEvent::XLogData {
                            wal_start: ws,
                            wal_end: we,
                            server_time: st,
                            data: d,
                        } && ws == wal_start && we == wal_end && st == server_time && d@ == data@)
                        &&& (stop_reached(*old(self), wal_end) ==> r.0@[1]
                            == ReplicationEvent::StoppedAt { lsn: wal_end })
                        &&& r.1.send_copy_done == stop_reached(*old(self), wal_end)
                        &&& r.1.send_status == stop_reached(*old(self), wal_end)
                    } else {
                        r.0@.len() == 0 && !r.1.send_copy_done && !r.1.send_status
                    })
                },
                WireFrame::Keepalive { wal_end, server_time, reply_requested } => {
                    &&& (if old(self).phase is Streaming {
                        &&& *final(self) == (Session {
                            status_due: old(self).status_due || reply_requested,
                            ..*old(self)
                        })
                        &&& r.0@.len() == 1
                        &&& r.0@[0] == ReplicationEvent::KeepAlive {
                            wal_end,
                            server_time,
                            reply_requested,
                        }
                        &&& r.1.send_status == reply_requested
                    } else {
                        *final(self) == *old(self) && r.0@.len() == 0 && !r.1.send_status
                    })
                    &&& !r.1.send_copy_done
                },
            }),
    {
        let mut events: Vec<ReplicationEvent> = Vec::new();
        let mut actions = StepActions { send_status: false, send_copy_done: false };
        match self.phase {
            Phase::Streaming => {},
            _ => {
                return (events, actions);
            },
        }
        match f {
            WireFrame::XLogData { wal_start, wal_end, server_time, data } => {
                self.ledger.observe_write(wal_end);
                events.push(
                    ReplicationEvent::XLogData { wal_start, wal_end, server_time, data },
                );
                let stopped = match self.stop_at_lsn {
                    Some(l) => wal_end >= l,
                    None => false,
                };
                if stopped {
                    events.push(ReplicationEvent::StoppedAt { lsn: wal_end });
                    self.phase = Phase::Closing;
                    self.status_due = true;
                    actions.send_status = true;
                    actions.send_copy_done = true;
                }
            },
            WireFrame::Keepalive { wal_end, server_time, reply_requested } => {
                events.push(
                    ReplicationEvent::KeepAlive { wal_end, server_time, reply_requested },
                );
                if reply_requested {
                    self.status_due = true;
                    actions.send_status = true;
                }
            },
        }
        (events, actions)
    }

    /// No watermark moved backward between two session states.
    pub open spec fn advanced(self, prior: Session) -> bool {
        self.ledger.advanced_from(prior.ledger)
    }

    /// Acknowledges application up to `lsn`. The ledger advances
    /// monotonically, and a status update is scheduled exactly when the
    /// acknowledgement moved a watermark.
    pub fn update_applied_lsn(&mut self, lsn: u64)
        requires
            old(self).wf(),
        ensures
            final(self).wf(),
            final(self).advanced(*old(self)),
            final(self).ledger == spec_apply_ack(old(self).ledger, lsn),
            final(self).phase == old(self).phase,
            final(self).stop_at_lsn == old(self).stop_at_lsn,
            final(self).status_due == (old(self).status_due || lsn
                > old(self).ledger.last_applied),
    {
        if lsn > self.ledger.last_applied {
            self.status_due = true;
        }
        self.ledger.update_applied_lsn(lsn);
    }

    /// The status timer fired: a streaming session sends a status update.
    pub fn on_status_timer(&mut self) -> (send: bool)
        requires
            old(self).wf(),
        ensures
            final(self).wf(),
            *final(self) == (Session { status_due: false, ..*old(self) }),
            send == (old(self).phase is Streaming || old(self).status_due),
    {
        let send = match self.phase {
            Phase::Streaming => true,
            _ => self.status_due,
        };
        self.status_due = false;
        send
    }

    /// Builds the outbound standby status update from the current ledger,
    /// and clears the pending-status flag.
    pub fn make_status_update(&mut self, client_time: i64) -> (r: Vec<u8>)
        requires
            old(self).wf(),
        ensures
            final(self).wf(),
            *final(self) == (Session { status_due: false, ..*old(self) }),
            r@ == spec_status_bytes(old(self).ledger, client_time),
    {
        self.status_due = false;
        let mut out: Vec<u8> = Vec::new();
        out.push(COPY_TAG_STATUS_UPDATE);
        push_u64_be(&mut out, self.ledger.last_written);
        push_u64_be(&mut out, self.ledger.last_flushed);
        push_u64_be(&mut out, self.ledger.last_applied);
        push_u64_be(&mut out, i64_to_bits(client_time));
        out.push(0);
        proof {
            assert(out@ =~= spec_status_bytes(old(self).ledger, client_time));
        }
        out
    }

    /// Begins a graceful shutdown: a streaming session moves to Closing and
    /// `CopyDone` is owed exactly then.
    pub fn close(&mut self) -> (send_copy_done: bool)
        requires
            old(self).wf(),
        ensures
            final(self).wf(),
            *final(self) == (Session {
                phase: if old(self).phase is Terminated {
                    Phase::Terminated
                } else {
                    Phase::Closing
                },
                ..*old(self)
            }),
            send_copy_done == (old(self).phase is Streaming),
    {
        match self.phase {
            Phase::Streaming => {
                self.phase = Phase::Closing;
                true
            },
            Phase::Closing => false,
            Phase::Terminated => false,
        }
    }

    /// The server side has drained: the session is over.
    pub fn mark_terminated(&mut self)
        requires
            old(self).wf(),
        ensures
            final(self).wf(),
            *final(self) == (Session { phase: Phase::Terminated, ..*old(self) }),
    {
        self.phase = Phase::Terminated;
    }
}

/// The big-endian bytes of a 64-bit value.
pub open spec fn u64_be(v: u64) -> Seq<u8> {
    seq![
        (v / 0x100000000000000 % 0x100) as u8,
        (v / 0x1000000000000 % 0x100) as u8,
        (v / 0x10000000000 % 0x100) as u8,
        (v / 0x100000000 % 0x100) as u8,
        (v / 0x1000000 % 0x100) as u8,
        (v / 0x10000 % 0x100) as u8,
        (v / 0x100 % 0x100) as u8,
        (v % 0x100) as u8,
    ]
}

/// The encoder and the parser agree: reading back the eight bytes of
/// `u64_be(v)` big-endian gives `v` again.
pub proof fn lemma_u64_be_round_trip(v: u64)
    ensures
        be8(u64_be(v), 0) == v,
{
    let s = u64_be(v);
    assert(s[0] == (v / 0x100000000000000 % 0x100) as u8);
    assert(s[1] == (v / 0x1000000000000 % 0x100) as u8);
    assert(s[2] == (v / 0x10000000000 % 0x100) as u8);
    assert(s[3] == (v / 0x100000000 % 0x100) as u8);
    assert(s[4] == (v / 0x1000000 % 0x100) as u8);
    assert(s[5] == (v / 0x10000 % 0x100) as u8);
    assert(s[6] == (v / 0x100 % 0x100) as u8);
    assert(s[7] == (v % 0x100) as u8);
    assert(v / 0x100000000000000 % 0x100 * 0x100000000000000 + v / 0x1000000000000 % 0x100
        * 0x1000000000000 + v / 0x10000000000 % 0x100 * 0x10000000000 + v / 0x100000000 % 0x100
        * 0x100000000 + v / 0x1000000 % 0x100 * 0x1000000 + v / 0x10000 % 0x100 * 0x10000 + v
        / 0x100 % 0x100 * 0x100 + v % 0x100 == v) by (bit_vector);
}

/// The two's-complement 64-bit pattern of a signed value.
pub open spec fn spec_i64_bits(t: i64) -> u64 {
    if t >= 0 {
        t as u64
    } else {
        (t + 0x10000000000000000) as u64
    }
}

/// The outbound standby status update: tag `'r'`, the three watermarks,
/// the client clock, and a zero reply-request byte.
pub open spec fn spec_status_bytes(l: ProgressLedger, client_time: i64) -> Seq<u8> {
    seq![COPY_TAG_STATUS_UPDATE] + u64_be(l.last_written) + u64_be(l.last_flushed) + u64_be(
        l.last_applied,
    ) + u64_be(spec_i64_bits(client_time)) + seq![0u8]
}

fn push_u64_be(out: &mut Vec<u8>, v: u64)
    ensures
        final(out)@ == old(out)@ + u64_be(v),
{
    out.push((v / 0x100000000000000 % 0x100) as u8);
    out.push((v / 0x1000000000000 % 0x100) as u8);
    out.push((v / 0x10000000000 % 0x100) as u8);
    out.push((v / 0x100000000 % 0x100) as u8);
    out.push((v / 0x1000000 % 0x100) as u8);
    out.push((v / 0x10000 % 0x100) as u8);
    out.push((v / 0x100 % 0x100) as u8);
    out.push((v % 0x100) as u8);
    proof {
        assert(final(out)@ =~= old(out)@ + u64_be(v));
    }
}

fn i64_to_bits(t: i64) -> (r: u64)
    ensures
        r == spec_i64_bits(t),
{
    if t >= 0 {
        t as u64
    } else {
        let d: u64 = (t - i64::MIN) as u64;
        d + 0x8000000000000000
    }
}

} // verus!
