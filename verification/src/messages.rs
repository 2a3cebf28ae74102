//! The typed `pgoutput` message structures that the decoder produces.

use vstd::prelude::*;

verus! {

/// One column value of a tuple event. The three variants are kept distinct:
/// a column can be SQL NULL, an unchanged out-of-line (TOAST) value omitted
/// from the payload, or a present value carried as opaque bytes.
#[derive(Debug, Clone, PartialEq, Eq)]
pub enum TupleValue {
    Null,
    UnchangedToast,
    Present(Vec<u8>),
}

/// Begin transaction message.
#[derive(Debug, Clone, PartialEq, Eq, Structural)]
pub struct BeginMessage {
    pub final_lsn: u64,
    pub timestamp: i64,
    pub xid: u32,
}

/// Commit transaction message.
#[derive(Debug, Clone, PartialEq, Eq, Structural)]
pub struct CommitMessage {
    pub flags: u8,
    pub commit_lsn: u64,
    pub end_lsn: u64,
    pub timestamp: i64,
}

/// One column of a relation's schema.
#[derive(Debug, Clone, PartialEq, Eq)]
pub struct ColumnInfo {
    pub flags: u8,
    pub name: String,
    pub type_id: u32,
    pub type_modifier: i32,
}

/// Relation (table schema) message.
#[derive(Debug, Clone, PartialEq, Eq)]
pub struct RelationMessage {
    pub rel_id: u32,
    pub namespace: String,
    pub name: String,
    pub replica_identity: u8,
    pub columns: Vec<ColumnInfo>,
}

/// Insert message.
#[derive(Debug, Clone, PartialEq, Eq)]
pub struct InsertMessage {
    pub rel_id: u32,
    pub tuple: Vec<TupleValue>,
}

/// Update message.
#[derive(Debug, Clone, PartialEq, Eq)]
pub struct UpdateMessage {
    pub rel_id: u32,
    pub old_tuple: Option<Vec<TupleValue>>,
    pub new_tuple: Vec<TupleValue>,
}

/// Delete message.
#[derive(Debug, Clone, PartialEq, Eq)]
pub struct DeleteMessage {
    pub rel_id: u32,
    pub old_tuple: Vec<TupleValue>,
}

/// Truncate message.
#[derive(Debug, Clone, PartialEq, Eq)]
pub struct TruncateMessage {
    pub options: u8,
    pub rel_ids: Vec<u32>,
}

/// Type message.
#[derive(Debug, Clone, PartialEq, Eq)]
pub struct TypeMessage {
    pub type_id: u32,
    pub namespace: String,
    pub name: String,
}

/// Origin message.
#[derive(Debug, Clone, PartialEq, Eq)]
pub struct OriginMessage {
    pub lsn: u64,
    pub name: String,
}

/// Logical replication message (emitted server-side into the stream).
#[derive(Debug, Clone, PartialEq, Eq)]
pub struct LogicalMessage {
    pub transactional: bool,
    pub lsn: u64,
    pub prefix: String,
    pub content: Vec<u8>,
}

/// All `pgoutput` message kinds.
#[derive(Debug, Clone, PartialEq, Eq)]
pub enum PgOutputMessage {
    Begin(BeginMessage),
    Commit(CommitMessage),
    Relation(RelationMessage),
    Insert(InsertMessage),
    Update(UpdateMessage),
    Delete(DeleteMessage),
    Truncate(TruncateMessage),
    Type(TypeMessage),
    Origin(OriginMessage),
    Message(LogicalMessage),
}

} // verus!
