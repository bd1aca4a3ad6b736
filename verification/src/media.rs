//! Media packets as plain values.

use crate::error::ProtocolError;
use vstd::prelude::*;

verus! {

/// Parameters that the media wire format fixes. The logic holds for every
/// choice of them.
#[derive(Debug, Clone, Copy, PartialEq, Eq, Structural)]
pub struct MediaWire {
    /// Bytes of an encoded media header.
    pub header_len: usize,
    /// Largest payload of one fragment.
    pub max_fragment_bytes: u16,
    /// Largest access unit.
    pub max_frame_bytes: u32,
    /// Wire value that stands for "depends on no frame".
    pub no_dependency: u64,
    /// Flag bits that mark a parity packet.
    pub parity_flag: u16,
}

/// Metadata of one media fragment.
#[derive(Debug, Clone, Copy, PartialEq, Eq, Structural)]
pub struct MediaHeader {
    /// Stable numeric media kind.
    pub kind: u8,
    pub flags: u16,
    pub stream_id: u32,
    pub codec_epoch: u32,
    pub frame_id: u64,
    pub dependency_frame_id: u64,
    pub frame_len: u32,
    pub fragment_offset: u32,
    pub fragment_len: u16,
}

/// Unique identity of a frame under construction.
#[derive(Debug, Clone, Copy, PartialEq, Eq, PartialOrd, Ord, Hash, Structural)]
pub struct FrameKey {
    pub stream_id: u32,
    pub codec_epoch: u32,
    pub frame_id: u64,
    /// Stable numeric representation avoids exposing ordering assumptions on the enum.
    pub kind: u8,
}

/// The identity of the frame that a header belongs to.
pub open spec fn key_of(header: MediaHeader) -> FrameKey {
    FrameKey {
        stream_id: header.stream_id,
        codec_epoch: header.codec_epoch,
        frame_id: header.frame_id,
        kind: header.kind,
    }
}

/// Strict order on frame identities: stream, epoch, frame, kind.
pub open spec fn key_before(left: FrameKey, right: FrameKey) -> bool {
    if left.stream_id != right.stream_id {
        left.stream_id < right.stream_id
    } else if left.codec_epoch != right.codec_epoch {
        left.codec_epoch < right.codec_epoch
    } else if left.frame_id != right.frame_id {
        left.frame_id < right.frame_id
    } else {
        left.kind < right.kind
    }
}

impl FrameKey {
    /// The identity of the frame that `header` belongs to.
    pub fn from_header(header: MediaHeader) -> (key: FrameKey)
        ensures
            key == key_of(header),
    {
        FrameKey {
            stream_id: header.stream_id,
            codec_epoch: header.codec_epoch,
            frame_id: header.frame_id,
            kind: header.kind,
        }
    }

    /// Whether `self` sorts strictly before `other`.
    pub fn before(self, other: FrameKey) -> (result: bool)
        ensures
            result == key_before(self, other),
    {
        if self.stream_id != other.stream_id {
            self.stream_id < other.stream_id
        } else if self.codec_epoch != other.codec_epoch {
            self.codec_epoch < other.codec_epoch
        } else if self.frame_id != other.frame_id {
            self.frame_id < other.frame_id
        } else {
            self.kind < other.kind
        }
    }
}

/// One decoded media packet. The payload has the length that the header
/// declares and lies inside the declared frame.
#[derive(Debug)]
pub struct MediaPacket {
    header: MediaHeader,
    payload: Vec<u8>,
}

/// A media packet as mathematics sees it.
#[verifier::ext_equal]
pub struct PacketView {
    pub header: MediaHeader,
    pub payload: Seq<u8>,
}

impl PacketView {
    /// The bounds that hold of every decoded packet.
    pub open spec fn is_valid(self) -> bool {
        &&& self.payload.len() == self.header.fragment_len
        &&& self.header.fragment_offset + self.header.fragment_len <= self.header.frame_len
    }
}

impl View for MediaPacket {
    type V = PacketView;

    closed spec fn view(&self) -> PacketView {
        PacketView { header: self.header, payload: self.payload@ }
    }
}

impl MediaPacket {
    #[verifier::type_invariant]
    spec fn well_formed(self) -> bool {
        PacketView { header: self.header, payload: self.payload@ }.is_valid()
    }

    /// A packet with this header and payload, refused with `Malformed(0)` when
    /// the lengths contradict each other.
    pub fn new(header: MediaHeader, payload: Vec<u8>) -> (packet: Result<
        MediaPacket,
        ProtocolError,
    >)
        ensures
            packet is Ok <==> (PacketView { header, payload: payload@ }).is_valid(),
            packet is Ok ==> packet->Ok_0@ == (PacketView { header, payload: payload@ }),
            packet is Err ==> packet->Err_0 == ProtocolError::Malformed(0),
    {
        if payload.len() != header.fragment_len as usize {
            return Err(ProtocolError::Malformed(0));
        }
        if header.fragment_offset as u64 + header.fragment_len as u64 > header.frame_len as u64 {
            return Err(ProtocolError::Malformed(0));
        }
        Ok(MediaPacket { header, payload })
    }

    /// The packet's header.
    pub fn header(&self) -> (header: MediaHeader)
        ensures
            header == self@.header,
            self@.is_valid(),
    {
        proof {
            use_type_invariant(self);
        }
        self.header
    }

    /// The packet's payload.
    pub fn payload(&self) -> (payload: &[u8])
        ensures
            payload@ == self@.payload,
    {
        self.payload.as_slice()
    }
}

} // verus!
