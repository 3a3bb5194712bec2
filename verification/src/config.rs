use vstd::prelude::*;

verus! {

/// Fixed byte cost accounted to every message besides its headers and
/// payload: identifier, timestamp, checksum and length fields.
pub const MESSAGE_OVERHEAD: u64 = 32;

/// Limits that govern a partition's segments and message validation.
#[derive(Clone, Copy, PartialEq, Eq, Structural, Debug)]
pub struct StorageConfig {
    /// Byte cap of one segment.
    pub max_size: u64,
    /// Largest number of messages one append batch may hold.
    pub max_messages_count: u64,
    /// Largest payload of one message, in bytes.
    pub max_payload_size: u64,
    /// Largest header block of one message, in accounted bytes.
    pub max_headers_size: u64,
    /// A sparse index entry is recorded every this many messages.
    pub index_interval: u64,
}

impl StorageConfig {
    /// A usable configuration: the sampling interval is positive, batches
    /// may hold at least one message, and a full batch of maximal valid
    /// messages always fits an empty segment, so rollover can always make
    /// room for a valid batch.
    pub open spec fn wf(self) -> bool {
        &&& self.index_interval >= 1
        &&& self.max_messages_count >= 1
        &&& self.max_payload_size >= 1
        &&& self.max_messages_count * (MESSAGE_OVERHEAD + self.max_headers_size
            + self.max_payload_size) <= self.max_size
    }
}

/// TLS certificate source of the QUIC listener.
#[derive(Clone, Debug)]
pub struct QuicCertificateConfig {
    pub self_signed: bool,
    pub cert_file: String,
    pub key_file: String,
}

/// QUIC listener settings. Buffer and window sizes are plain byte counts
/// and the two intervals are microseconds; the transport layer parses
/// human-readable forms before handing them here.
#[derive(Clone, Debug)]
pub struct QuicConfig {
    pub enabled: bool,
    pub address: String,
    pub max_concurrent_bidi_streams: u64,
    pub datagram_send_buffer_size: u64,
    pub initial_mtu: u64,
    pub send_window: u64,
    pub receive_window: u64,
    pub keep_alive_interval: u64,
    pub max_idle_timeout: u64,
    pub certificate: QuicCertificateConfig,
}

} // verus!
