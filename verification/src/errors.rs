use vstd::prelude::*;

verus! {

/// Error kinds of the storage and session core.
///
/// Each kind carries the stable numeric code under which it crosses the
/// wire boundary; `code` returns it. Codes are namespaced by magnitude:
/// 4000s belong to the segment/message layer, 5000s to the consumer-group
/// layer.
#[derive(Clone, Copy, PartialEq, Eq, Structural, Debug)]
pub enum EngineError {
    /// No registered client has the given ID.
    ClientNotFound(u32),
    /// The group does not cover a partition with the given ID.
    PartitionNotFound(u32),
    /// The offset lies outside every retained segment.
    SegmentNotFound,
    /// The segment is no longer writable.
    SegmentClosed,
    /// The batch is empty or holds more messages than allowed.
    InvalidMessagesCount,
    /// The header block of a message is larger than allowed.
    TooBigHeadersPayload,
    /// A header key is malformed (empty).
    InvalidHeaderKey,
    /// A header value is malformed (empty).
    InvalidHeaderValue,
    /// The payload of a message is larger than allowed.
    TooBigMessagePayload,
    /// The payload of a message is empty.
    EmptyMessagePayload,
    /// A stored checksum does not match the message it covers.
    InvalidMessageChecksum { found: u32, expected: u32, offset: u64 },
    /// The offset is not acceptable here (out of range, or a regression).
    InvalidOffset(u64),
    /// No consumer group has the given ID.
    ConsumerGroupNotFound(u32),
}

impl EngineError {
    /// The stable numeric code of this error kind.
    pub open spec fn spec_code(self) -> u32 {
        match self {
            EngineError::ClientNotFound(_) => 100,
            EngineError::PartitionNotFound(_) => 3007,
            EngineError::SegmentNotFound => 4000,
            EngineError::SegmentClosed => 4001,
            EngineError::InvalidMessagesCount => 4009,
            EngineError::TooBigHeadersPayload => 4017,
            EngineError::InvalidHeaderKey => 4018,
            EngineError::InvalidHeaderValue => 4019,
            EngineError::TooBigMessagePayload => 4022,
            EngineError::EmptyMessagePayload => 4024,
            EngineError::InvalidMessageChecksum { .. } => 4027,
            EngineError::InvalidOffset(_) => 4100,
            EngineError::ConsumerGroupNotFound(_) => 5000,
        }
    }

    /// The stable numeric code of this error kind.
    pub fn code(&self) -> (c: u32)
        ensures
            c == self.spec_code(),
    {
        match self {
            EngineError::ClientNotFound(_) => 100,
            EngineError::PartitionNotFound(_) => 3007,
            EngineError::SegmentNotFound => 4000,
            EngineError::SegmentClosed => 4001,
            EngineError::InvalidMessagesCount => 4009,
            EngineError::TooBigHeadersPayload => 4017,
            EngineError::InvalidHeaderKey => 4018,
            EngineError::InvalidHeaderValue => 4019,
            EngineError::TooBigMessagePayload => 4022,
            EngineError::EmptyMessagePayload => 4024,
            EngineError::InvalidMessageChecksum { .. } => 4027,
            EngineError::InvalidOffset(_) => 4100,
            EngineError::ConsumerGroupNotFound(_) => 5000,
        }
    }
}

} // verus!
