//! Error values shared by the transport modules.

use crate::media::FrameKey;
use vstd::prelude::*;

verus! {

/// Why the wire codec refused a record. The codec itself lives outside this
/// crate; the logic only carries its verdict.
#[derive(Debug, Clone, Copy, PartialEq, Eq, Structural)]
pub enum ProtocolError {
    /// A session stamp broke the lifecycle rules.
    InvalidSessionStamp,
    /// A control payload of this length cannot be framed.
    ControlLength(u32),
    /// Any other refusal, by the codec's own number.
    Malformed(u16),
}

/// Transport-layer error.
#[derive(Debug, Clone, Copy, PartialEq, Eq, Structural)]
pub enum TransportError {
    Protocol(ProtocolError),
    FrameLength(usize),
    DatagramMtu(usize),
    PacketSize(usize),
    InvalidDeadline,
    Arithmetic,
    InvalidReassemblyConfig,
    FrameExceedsReassemblyBudget { frame_bytes: usize, budget_bytes: usize },
    ReassemblyCapacity,
    MetadataConflict(FrameKey),
    FragmentConflict,
    FragmentOverlap,
    FragmentEntryLimit,
    IncompleteAssembly,
    UnsupportedParity,
    InvalidNetworkProfile,
    NetworkQueueFull,
    StaleCodecEpoch { packet_epoch: u32, current_epoch: u32 },
    ReplayDetected(u64),
    CongestionConfigInvalid,
}

} // verus!
