//! Splitting access units into media packets.

use crate::bytes::copy_bytes;
use crate::error::{ProtocolError, TransportError};
use crate::media::{MediaHeader, MediaPacket, MediaWire, PacketView};
use vstd::arithmetic::div_mod::*;
use vstd::arithmetic::mul::*;
use vstd::prelude::*;
use vstd::slice::slice_subrange;

verus! {

/// Minimum internet-safe datagram MTU (IPv6 minimum MTU without fragmentation).
pub const MIN_DATAGRAM_MTU: usize = 1_200;

/// Maximum internet-safe datagram MTU for remote desktop media.
pub const MAX_DATAGRAM_MTU: usize = 1_450;

/// Conservative internet-safe default. A provider may negotiate another value
/// after path validation, but must never exceed protocol bounds.
pub const DEFAULT_MAX_DATAGRAM_BYTES: usize = 1_200;

/// Validates that a path MTU is within internet-safe bounds (1200..=1450).
pub fn validate_datagram_mtu(mtu: usize) -> (result: Result<(), TransportError>)
    ensures
        result == (if 1_200 <= mtu <= 1_450 {
            Ok::<(), TransportError>(())
        } else {
            Err::<(), TransportError>(TransportError::DatagramMtu(mtu))
        }),
{
    if mtu < MIN_DATAGRAM_MTU || mtu > MAX_DATAGRAM_MTU {
        return Err(TransportError::DatagramMtu(mtu));
    }
    Ok(())
}

/// Metadata shared by all fragments of one encoded frame.
#[derive(Debug, Clone, Copy, PartialEq, Eq, Structural)]
pub struct FragmentSpec {
    pub kind: u8,
    pub flags: u16,
    pub stream_id: u32,
    pub codec_epoch: u32,
    pub frame_id: u64,
    pub dependency_frame_id: Option<u64>,
}

impl FragmentSpec {
    /// The header of the fragment at `offset` with `len` bytes, for a frame of
    /// `frame_len` bytes.
    pub open spec fn header_at(
        self,
        wire: MediaWire,
        frame_len: int,
        offset: int,
        len: int,
    ) -> MediaHeader {
        MediaHeader {
            kind: self.kind,
            flags: self.flags,
            stream_id: self.stream_id,
            codec_epoch: self.codec_epoch,
            frame_id: self.frame_id,
            dependency_frame_id: match self.dependency_frame_id {
                Some(id) => id,
                None => wire.no_dependency,
            },
            frame_len: frame_len as u32,
            fragment_offset: offset as u32,
            fragment_len: len as u16,
        }
    }

    fn dependency_wire(self, wire: MediaWire) -> (id: u64)
        ensures
            id == (match self.dependency_frame_id {
                Some(id) => id,
                None => wire.no_dependency,
            }),
    {
        match self.dependency_frame_id {
            Some(id) => id,
            None => wire.no_dependency,
        }
    }
}

/// End of the chunk that starts at `start`, in a frame of `len` bytes.
pub open spec fn chunk_end(start: int, cap: int, len: int) -> int {
    if start + cap <= len {
        start + cap
    } else {
        len
    }
}

/// How many chunks of `cap` bytes cover `len` bytes.
pub open spec fn chunk_count(len: int, cap: int) -> int {
    (len + cap - 1) / cap
}

/// The packet that carries chunk `index` of a frame.
pub open spec fn fragment_at(
    spec: FragmentSpec,
    wire: MediaWire,
    frame: Seq<u8>,
    cap: int,
    index: int,
) -> PacketView {
    let start = index * cap;
    let end = chunk_end(start, cap, frame.len() as int);
    PacketView {
        header: spec.header_at(wire, frame.len() as int, start, end - start),
        payload: frame.subrange(start, end),
    }
}

/// All packets of a frame, in order.
pub open spec fn fragments(
    spec: FragmentSpec,
    wire: MediaWire,
    frame: Seq<u8>,
    cap: int,
) -> Seq<PacketView> {
    Seq::new(
        chunk_count(frame.len() as int, cap) as nat,
        |index: int| fragment_at(spec, wire, frame, cap, index),
    )
}

/// The views of a vector of packets.
pub open spec fn packet_views(packets: Seq<MediaPacket>) -> Seq<PacketView> {
    packets.map_values(|packet: MediaPacket| packet@)
}

/// The error, if any, that splitting `len` bytes into packets of at most
/// `budget` bytes reports.
pub open spec fn fragment_error(wire: MediaWire, len: int, budget: usize) -> Option<
    TransportError,
> {
    if len == 0 || len > wire.max_frame_bytes {
        Some(TransportError::FrameLength(len as usize))
    } else if budget <= wire.header_len || budget - wire.header_len > wire.max_fragment_bytes {
        Some(TransportError::DatagramMtu(budget))
    } else {
        None
    }
}

/// What splitting a frame returns: the error, or exactly the packets.
/// `encodable` is the packet codec's verdict on packets of this frame.
pub open spec fn fragmented(
    result: Result<Vec<MediaPacket>, TransportError>,
    spec: FragmentSpec,
    wire: MediaWire,
    frame: Seq<u8>,
    budget: usize,
    encodable: Result<(), ProtocolError>,
) -> bool {
    match fragment_error(wire, frame.len() as int, budget) {
        Some(error) => result == Err::<Vec<MediaPacket>, TransportError>(error),
        None => match encodable {
            Err(error) => result == Err::<Vec<MediaPacket>, TransportError>(
                TransportError::Protocol(error),
            ),
            Ok(()) => {
                &&& result is Ok
                &&& packet_views(result->Ok_0@) == fragments(
                    spec,
                    wire,
                    frame,
                    budget - wire.header_len,
                )
            },
        },
    }
}

/// Splits one access unit into media packets that fit a path MTU. `encodable`
/// is the packet codec's verdict on packets of this frame.
pub fn fragment_frame(
    wire: MediaWire,
    spec: FragmentSpec,
    frame: &[u8],
    max_datagram_bytes: usize,
    encodable: Result<(), ProtocolError>,
) -> (result: Result<Vec<MediaPacket>, TransportError>)
    ensures
        !(1_200 <= max_datagram_bytes <= 1_450) ==> result == Err::<
            Vec<MediaPacket>,
            TransportError,
        >(TransportError::DatagramMtu(max_datagram_bytes)),
        1_200 <= max_datagram_bytes <= 1_450 ==> fragmented(
            result,
            spec,
            wire,
            frame@,
            max_datagram_bytes,
            encodable,
        ),
{
    match validate_datagram_mtu(max_datagram_bytes) {
        Err(error) => Err(error),
        Ok(()) => fragment_frame_impl(wire, spec, frame, max_datagram_bytes, encodable),
    }
}

/// Splits one access unit using the byte budget available to an encoded media
/// packet.
///
/// Unlike [`fragment_frame`], this accepts a packet budget smaller than the
/// internet-safe path MTU. QUIC providers should subtract their outer framing
/// overhead from the path's datagram limit before calling this function.
pub fn fragment_frame_with_packet_budget(
    wire: MediaWire,
    spec: FragmentSpec,
    frame: &[u8],
    max_media_packet_bytes: usize,
    encodable: Result<(), ProtocolError>,
) -> (result: Result<Vec<MediaPacket>, TransportError>)
    ensures
        !(wire.header_len < max_media_packet_bytes <= 1_450) ==> result == Err::<
            Vec<MediaPacket>,
            TransportError,
        >(TransportError::DatagramMtu(max_media_packet_bytes)),
        wire.header_len < max_media_packet_bytes <= 1_450 ==> fragmented(
            result,
            spec,
            wire,
            frame@,
            max_media_packet_bytes,
            encodable,
        ),
{
    if max_media_packet_bytes <= wire.header_len || max_media_packet_bytes > MAX_DATAGRAM_MTU {
        return Err(TransportError::DatagramMtu(max_media_packet_bytes));
    }
    fragment_frame_impl(wire, spec, frame, max_media_packet_bytes, encodable)
}

fn fragment_frame_impl(
    wire: MediaWire,
    spec: FragmentSpec,
    frame: &[u8],
    max_media_packet_bytes: usize,
    encodable: Result<(), ProtocolError>,
) -> (result: Result<Vec<MediaPacket>, TransportError>)
    ensures
        fragmented(result, spec, wire, frame@, max_media_packet_bytes, encodable),
{
    if frame.len() == 0 || frame.len() as u64 > wire.max_frame_bytes as u64 {
        return Err(TransportError::FrameLength(frame.len()));
    }
    if max_media_packet_bytes <= wire.header_len {
        return Err(TransportError::DatagramMtu(max_media_packet_bytes));
    }
    let cap: usize = max_media_packet_bytes - wire.header_len;
    if cap > wire.max_fragment_bytes as usize {
        return Err(TransportError::DatagramMtu(max_media_packet_bytes));
    }
    match encodable {
        Err(error) => return Err(TransportError::Protocol(error)),
        Ok(()) => {},
    }
    let frame_len: u32 = frame.len() as u32;
    let dependency: u64 = spec.dependency_wire(wire);
    let mut packets: Vec<MediaPacket> = Vec::new();
    let mut start: usize = 0;
    let ghost len = frame@.len() as int;
    let ghost step = cap as int;
    proof {
        assert(0 * step == 0);
    }
    while start < frame.len()
        invariant
            0 < cap <= wire.max_fragment_bytes,
            step == cap,
            len == frame@.len(),
            0 < len <= u32::MAX,
            frame_len == len,
            start < len ==> start == packets@.len() * step,
            start == len ==> packets@.len() == chunk_count(len, step),
            start <= len,
            dependency == (match spec.dependency_frame_id {
                Some(id) => id,
                None => wire.no_dependency,
            }),
            forall|i: int|
                0 <= i < packets@.len() ==> (#[trigger] packets@[i])@ == fragment_at(
                    spec,
                    wire,
                    frame@,
                    step,
                    i,
                ),
        decreases len - start,
    {
        let remaining: usize = frame.len() - start;
        let size: usize = if remaining < cap {
            remaining
        } else {
            cap
        };
        let end: usize = start + size;
        let payload: Vec<u8> = copy_bytes(slice_subrange(frame, start, end));
        let header = MediaHeader {
            kind: spec.kind,
            flags: spec.flags,
            stream_id: spec.stream_id,
            codec_epoch: spec.codec_epoch,
            frame_id: spec.frame_id,
            dependency_frame_id: dependency,
            frame_len,
            fragment_offset: start as u32,
            fragment_len: size as u16,
        };
        let ghost index = packets@.len() as int;
        match MediaPacket::new(header, payload) {
            Ok(packet) => packets.push(packet),
            Err(error) => return Err(TransportError::Protocol(error)),
        }
        proof {
            assert((index + 1) * step == index * step + step) by (nonlinear_arith);
            lemma_last_chunk(len, step, index, end as int);
        }
        start = end;
    }
    proof {
        assert(packet_views(packets@) =~= fragments(spec, wire, frame@, step));
    }
    Ok(packets)
}

proof fn lemma_last_chunk(len: int, cap: int, index: int, end: int)
    requires
        0 < cap,
        0 <= index,
        index * cap < len,
        end == chunk_end(index * cap, cap, len),
    ensures
        end == len ==> chunk_count(len, cap) == index + 1,
        end < len ==> end == (index + 1) * cap,
{
    assert((index + 1) * cap == index * cap + cap) by (nonlinear_arith);
    if end == len {
        let tail = len + cap - 1 - (index + 1) * cap;
        assert(0 <= tail < cap);
        lemma_fundamental_div_mod_converse(len + cap - 1, cap, index + 1, tail);
    }
}

/// The payloads of a run of packets, joined.
pub open spec fn joined(packets: Seq<PacketView>) -> Seq<u8>
    decreases packets.len(),
{
    if packets.len() == 0 {
        Seq::empty()
    } else {
        joined(packets.drop_last()) + packets.last().payload
    }
}

pub(crate) proof fn lemma_chunk_bounds(len: int, cap: int, index: int)
    requires
        0 < cap,
        0 < len,
        0 <= index < chunk_count(len, cap),
    ensures
        0 <= index * cap < len,
        index * cap < chunk_end(index * cap, cap, len) <= len,
        index + 1 < chunk_count(len, cap) ==> chunk_end(index * cap, cap, len) == (index + 1)
            * cap,
        index + 1 == chunk_count(len, cap) ==> chunk_end(index * cap, cap, len) == len,
{
    let count = chunk_count(len, cap);
    lemma_fundamental_div_mod(len + cap - 1, cap);
    lemma_mod_bound(len + cap - 1, cap);
    assert(cap * count == count * cap) by (nonlinear_arith);
    assert((index + 1) * cap == index * cap + cap) by (nonlinear_arith);
    assert(index * cap >= 0) by (nonlinear_arith)
        requires
            0 <= index,
            0 < cap,
    ;
    assert((index + 1) * cap <= count * cap) by (nonlinear_arith)
        requires
            index + 1 <= count,
            0 < cap,
    ;
    if index + 1 < count {
        assert((index + 2) * cap <= count * cap) by (nonlinear_arith)
            requires
                index + 2 <= count,
                0 < cap,
        ;
        assert((index + 2) * cap == index * cap + 2 * cap) by (nonlinear_arith);
    }
}

/// Every packet of a frame is valid, nonempty and fits the budget; its offset
/// is where the previous one ended.
pub proof fn law_fragments_fit(
    spec: FragmentSpec,
    wire: MediaWire,
    frame: Seq<u8>,
    budget: usize,
    index: int,
)
    requires
        fragment_error(wire, frame.len() as int, budget) is None,
        0 <= index < fragments(spec, wire, frame, budget - wire.header_len).len(),
    ensures
        ({
            let cap = budget - wire.header_len;
            let packets = fragments(spec, wire, frame, cap);
            let packet = packets[index];
            &&& packet.is_valid()
            &&& 0 < packet.payload.len()
            &&& wire.header_len + packet.payload.len() <= budget
            &&& packet.header.frame_len == frame.len()
            &&& packet.header.fragment_offset == index * cap
            &&& packet.header.fragment_offset + packet.payload.len() == (if index + 1
                < packets.len() {
                packets[index + 1].header.fragment_offset as int
            } else {
                frame.len() as int
            })
            &&& packet.payload == frame.subrange(
                packet.header.fragment_offset as int,
                packet.header.fragment_offset + packet.payload.len(),
            )
        }),
{
    let cap = budget - wire.header_len;
    let len = frame.len() as int;
    lemma_chunk_bounds(len, cap, index);
    if index + 1 < chunk_count(len, cap) {
        lemma_chunk_bounds(len, cap, index + 1);
    }
}

/// Joining the payloads of a frame's packets gives the frame back.
pub proof fn law_fragments_join_to_the_frame(
    spec: FragmentSpec,
    wire: MediaWire,
    frame: Seq<u8>,
    budget: usize,
)
    requires
        fragment_error(wire, frame.len() as int, budget) is None,
    ensures
        joined(fragments(spec, wire, frame, budget - wire.header_len)) == frame,
{
    let cap = budget - wire.header_len;
    let len = frame.len() as int;
    let packets = fragments(spec, wire, frame, cap);
    lemma_fundamental_div_mod(len + cap - 1, cap);
    lemma_mod_bound(len + cap - 1, cap);
    assert(packets.len() >= 1) by {
        lemma_div_is_ordered(cap, len + cap - 1, cap);
        lemma_div_by_self(cap);
    }
    lemma_joined_prefix(spec, wire, frame, cap, packets.len() as int);
    assert(packets.take(packets.len() as int) =~= packets);
    lemma_chunk_bounds(len, cap, packets.len() - 1);
    assert(frame.take(len) =~= frame);
}

proof fn lemma_joined_prefix(
    spec: FragmentSpec,
    wire: MediaWire,
    frame: Seq<u8>,
    cap: int,
    count: int,
)
    requires
        0 < cap,
        0 < frame.len(),
        1 <= count <= chunk_count(frame.len() as int, cap),
    ensures
        joined(fragments(spec, wire, frame, cap).take(count)) == frame.take(
            chunk_end((count - 1) * cap, cap, frame.len() as int),
        ),
    decreases count,
{
    let packets = fragments(spec, wire, frame, cap);
    let len = frame.len() as int;
    lemma_chunk_bounds(len, cap, count - 1);
    assert(packets.take(count).drop_last() =~= packets.take(count - 1));
    assert(packets.take(count).last() == fragment_at(spec, wire, frame, cap, count - 1));
    let start = (count - 1) * cap;
    let end = chunk_end(start, cap, len);
    if count > 1 {
        lemma_joined_prefix(spec, wire, frame, cap, count - 1);
        lemma_chunk_bounds(len, cap, count - 2);
        assert((count - 2 + 1) * cap == start);
        assert(frame.take(start) + frame.subrange(start, end) =~= frame.take(end));
    } else {
        assert(start == 0) by (nonlinear_arith)
            requires
                start == (count - 1) * cap,
                count == 1,
        ;
        assert(joined(packets.take(0)) =~= Seq::<u8>::empty());
        assert(Seq::<u8>::empty() + frame.subrange(0, end) =~= frame.take(end));
    }
}

} // verus!
