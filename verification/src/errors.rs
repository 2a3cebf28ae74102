use vstd::prelude::*;

verus! {

/// Failure while decoding a `pgoutput` message payload.
///
/// Variants that carry data keep the offending byte (or relation id) so the
/// condition can be diagnosed from the error alone.
#[derive(Clone, Copy, Debug, PartialEq, Eq, Structural)]
pub enum DecodeError {
    /// The first byte of the payload is not a known message tag.
    UnknownTag(u8),
    /// An Insert carried a tuple sentinel other than `'N'`.
    ExpectedNewTuple(u8),
    /// An Update or Delete carried an unexpected leading tuple sentinel.
    BadTupleSentinel(u8),
    /// A tuple column carried a tag other than `'n'`, `'u'` or `'t'`.
    BadColumnTag(u8),
    /// A NUL-terminated string ran past the end of the payload.
    UnterminatedCstr,
    /// A NUL-terminated string was not valid UTF-8.
    InvalidUtf8,
    /// The payload ended before a fixed-width field was complete.
    TruncatedFrame,
    /// A tuple event referred to a relation id with no prior Relation event.
    UnknownRelation(u32),
}

/// Failure in configuration values handed to the client.
#[derive(Clone, Copy, Debug, PartialEq, Eq, Structural)]
pub enum ConfigError {
    /// An LSN given as text is not of the `X/Y` hexadecimal form.
    InvalidLsnText,
}

/// Failure at the replication-stream framing layer.
#[derive(Clone, Copy, Debug, PartialEq, Eq, Structural)]
pub enum ProtocolError {
    /// A `CopyData` payload began with a byte other than `'w'` or `'k'`.
    UnknownCopyDataTag(u8),
    /// A `CopyData` payload ended before its fixed header was complete.
    TruncatedCopyData,
}

} // verus!
