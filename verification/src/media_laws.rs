//! What media sending and receiving do, in plain numbers.

use crate::control::SessionStamp;
use crate::error::{ProtocolError, TransportError};
use crate::fragment::{
    chunk_count, fragment_error, fragments, law_fragments_fit, FragmentSpec,
    DEFAULT_MAX_DATAGRAM_BYTES, MAX_DATAGRAM_MTU, MIN_DATAGRAM_MTU,
};
use crate::media::{key_before, key_of, FrameKey, MediaHeader, MediaWire, PacketView};
use crate::product::{
    empty_reassembler, largest_payload, media_fault, packet_budget, sent_before_abort,
    skips_datagram, DeliveredFrame, MediaReceiverView, ProductProtocolViolation,
    ProductSessionError, ReceivedMediaView,
};
use crate::quic::{
    media_admission, ConnectionLoss, MediaSendOutcome, QuicTransportError, ReadFault, WriteFault,
};
use crate::reassembly::{FrameView, OutcomeView};
use crate::replay::{is_replay, remembered};
use crate::route::RouteTransitionViolation;
use vstd::prelude::*;

verus! {

// ---------------------------------------------------------------------------
// Identities
// ---------------------------------------------------------------------------
/// Two headers belong to one frame exactly if they agree on the stream, the
/// codec epoch, the frame number and the kind.
pub proof fn law_frames_are_told_apart(left: MediaHeader, right: MediaHeader)
    ensures
        key_of(left) == key_of(right) <==> (left.stream_id == right.stream_id && left.codec_epoch
            == right.codec_epoch && left.frame_id == right.frame_id && left.kind == right.kind),
        key_of(left).stream_id == left.stream_id,
        key_of(left).codec_epoch == left.codec_epoch,
        key_of(left).frame_id == left.frame_id,
        key_of(left).kind == left.kind,
{
}

/// Identities are ordered by stream first, then by epoch, by number and by
/// kind. The order is total and strict.
pub proof fn law_identities_are_ordered(left: FrameKey, right: FrameKey, third: FrameKey)
    ensures
        left.stream_id < right.stream_id ==> key_before(left, right),
        left.stream_id == right.stream_id && left.codec_epoch < right.codec_epoch ==> key_before(
            left,
            right,
        ),
        left.stream_id == right.stream_id && left.codec_epoch == right.codec_epoch && left.frame_id
            < right.frame_id ==> key_before(left, right),
        left.stream_id == right.stream_id && left.codec_epoch == right.codec_epoch && left.frame_id
            == right.frame_id && left.kind < right.kind ==> key_before(left, right),
        !key_before(left, left),
        left != right ==> key_before(left, right) || key_before(right, left),
        !(key_before(left, right) && key_before(right, left)),
        key_before(left, right) && key_before(right, third) ==> key_before(left, third),
{
}

/// A numbered frame that was delivered is a replay, and nothing else is: not a
/// frame without a number, and not one that was not delivered.
pub proof fn law_only_delivered_frames_are_replays(
    delivered: Set<FrameKey>,
    key: FrameKey,
    other: FrameKey,
)
    ensures
        is_replay(delivered, key) <==> (key.frame_id != 0 && delivered.contains(key)),
        key.frame_id != 0 ==> is_replay(remembered(delivered, key), key),
        key.frame_id == 0 ==> remembered(delivered, key) == delivered,
        other != key ==> (remembered(delivered, key).contains(other) <==> delivered.contains(
            other,
        )),
{
}

// ---------------------------------------------------------------------------
// Splitting
// ---------------------------------------------------------------------------
/// Datagrams have 1200 to 1450 bytes, and 1200 unless told otherwise.
pub proof fn law_datagram_sizes()
    ensures
        MIN_DATAGRAM_MTU == 1_200,
        MAX_DATAGRAM_MTU == 1_450,
        DEFAULT_MAX_DATAGRAM_BYTES == 1_200,
{
}

/// A frame can be split exactly if it has a byte, is no longer than a frame may
/// be, and a packet has room for the header and one to the most allowed bytes
/// of payload. The length is looked at first.
pub proof fn law_frames_in_range_are_split(wire: MediaWire, len: usize, budget: usize)
    ensures
        fragment_error(wire, len as int, budget) is None <==> (1 <= len && len
            <= wire.max_frame_bytes && wire.header_len + 1 <= budget && budget <= wire.header_len
            + wire.max_fragment_bytes),
        len == 0 || len > wire.max_frame_bytes ==> fragment_error(wire, len as int, budget)
            == Some(TransportError::FrameLength(len)),
        1 <= len <= wire.max_frame_bytes && fragment_error(wire, len as int, budget) is Some
            ==> fragment_error(wire, len as int, budget) == Some(
            TransportError::DatagramMtu(budget),
        ),
{
}

/// A frame is split into as few packets as its bytes need: all but the last are
/// full, and the last is not empty.
pub proof fn law_no_packet_too_many(
    spec: FragmentSpec,
    wire: MediaWire,
    frame: Seq<u8>,
    budget: usize,
)
    requires
        1 <= frame.len() <= wire.max_frame_bytes,
        wire.header_len + 1 <= budget <= wire.header_len + wire.max_fragment_bytes,
    ensures
        ({
            let room = budget - wire.header_len;
            let packets = fragments(spec, wire, frame, room);
            &&& packets.len() >= 1
            &&& (packets.len() - 1) * room < frame.len() <= packets.len() * room
            &&& forall|i: int|
                0 <= i < packets.len() - 1 ==> (#[trigger] packets[i]).payload.len() == room
        }),
{
    let room = budget - wire.header_len;
    let len = frame.len() as int;
    let packets = fragments(spec, wire, frame, room);
    let count = chunk_count(len, room);
    assert((count - 1) * room < len <= count * room && count >= 1) by (nonlinear_arith)
        requires
            count == (len + room - 1) / room,
            room >= 1,
            len >= 1,
    ;
    assert forall|i: int| 0 <= i < packets.len() - 1 implies (#[trigger] packets[i]).payload.len()
        == room by {
        law_fragments_fit(spec, wire, frame, budget, i);
        law_fragments_fit(spec, wire, frame, budget, i + 1);
        assert((i + 1) * room == i * room + room) by (nonlinear_arith);
    }
}

/// Every packet says which frame it belongs to, what that frame depends on, how
/// long it is, and which of its bytes the packet carries.
pub proof fn law_packets_name_their_frame(
    spec: FragmentSpec,
    wire: MediaWire,
    frame: Seq<u8>,
    budget: usize,
    index: int,
)
    requires
        1 <= frame.len() <= wire.max_frame_bytes,
        wire.header_len + 1 <= budget <= wire.header_len + wire.max_fragment_bytes,
        0 <= index < fragments(spec, wire, frame, budget - wire.header_len).len(),
    ensures
        ({
            let packet = fragments(spec, wire, frame, budget - wire.header_len)[index];
            let start = packet.header.fragment_offset as int;
            &&& packet.header.kind == spec.kind
            &&& packet.header.flags == spec.flags
            &&& packet.header.stream_id == spec.stream_id
            &&& packet.header.codec_epoch == spec.codec_epoch
            &&& packet.header.frame_id == spec.frame_id
            &&& spec.dependency_frame_id is None ==> packet.header.dependency_frame_id
                == wire.no_dependency
            &&& spec.dependency_frame_id is Some ==> packet.header.dependency_frame_id
                == spec.dependency_frame_id->Some_0
            &&& packet.header.frame_len == frame.len()
            &&& packet.header.fragment_len == packet.payload.len()
            &&& start == index * (budget - wire.header_len)
            &&& start + packet.payload.len() <= frame.len()
            &&& forall|i: int|
                0 <= i < packet.payload.len() ==> #[trigger] packet.payload[i] == frame[start + i]
        }),
{
    law_fragments_fit(spec, wire, frame, budget, index);
}

// ---------------------------------------------------------------------------
// Sending
// ---------------------------------------------------------------------------
/// A path carries media exactly if it has room for both headers and a byte. A
/// packet then gets what the path leaves, and never more than 1450 bytes.
pub proof fn law_path_leaves_room_for_packets(wire: MediaWire, outer: usize, path_max: usize)
    ensures
        packet_budget(wire, outer, path_max) is Some <==> path_max >= outer + wire.header_len + 1,
        packet_budget(wire, outer, path_max) matches Some(budget) ==> {
            &&& budget <= 1_450
            &&& outer + budget <= path_max
            &&& budget == 1_450 || outer + budget == path_max
        },
{
}

/// A frame is sent exactly if the route has authority, its lifetime is positive
/// and ends within the clock, the path carries datagrams with room for a packet
/// with a byte of payload, the frame can be split for them, and the codec takes
/// the packets. What stands in the way is reported, the first such thing first.
pub proof fn law_frames_are_sent_when_nothing_stands_in_the_way(
    wire: MediaWire,
    outer: usize,
    frame_len: usize,
    max_age_ns: u128,
    now_ns: u64,
    path_max: usize,
    codec: ProtocolError,
)
    requires
        wire.header_len < 1_450,
    ensures
        ({
            let fits = path_max >= outer + wire.header_len + 1;
            let room = if path_max - outer > 1_450 {
                1_450
            } else {
                path_max - outer
            };
            let splits = 1 <= frame_len && frame_len <= wire.max_frame_bytes && room
                <= wire.header_len + wire.max_fragment_bytes;
            let frame = frame_len as int;
            let lives = 1 <= max_age_ns <= u64::MAX;
            let verdict = media_fault(
                wire,
                outer,
                true,
                frame,
                max_age_ns,
                now_ns,
                Some(path_max),
                Ok(()),
            );
            &&& verdict is None <==> (lives && fits && splits && now_ns + max_age_ns <= u64::MAX)
            &&& !lives ==> verdict == Some(ProductSessionError::InvalidMediaMaxAge)
            &&& lives && !fits ==> verdict == Some(
                ProductSessionError::DatagramBudgetTooSmall {
                    path_max_datagram_bytes: path_max,
                    outer_header_bytes: outer,
                    minimum_inner_datagram_bytes: (wire.header_len + 1) as usize,
                },
            )
            &&& lives && fits && !(1 <= frame_len <= wire.max_frame_bytes) ==> verdict == Some(
                ProductSessionError::Transport(TransportError::FrameLength(frame_len)),
            )
            &&& lives && fits && 1 <= frame_len <= wire.max_frame_bytes && !splits ==> verdict
                == Some(ProductSessionError::Transport(TransportError::DatagramMtu(room as usize)))
            &&& lives && fits && splits && now_ns + max_age_ns > u64::MAX ==> verdict == Some(
                ProductSessionError::MediaDeadlineOverflow,
            )
            &&& lives ==> media_fault(
                wire,
                outer,
                true,
                frame,
                max_age_ns,
                now_ns,
                None,
                Ok(()),
            ) == Some(ProductSessionError::DatagramsUnsupported)
            &&& verdict is None ==> media_fault(
                wire,
                outer,
                true,
                frame,
                max_age_ns,
                now_ns,
                Some(path_max),
                Err(codec),
            ) == Some(ProductSessionError::Protocol(codec))
            &&& media_fault(
                wire,
                outer,
                false,
                frame,
                max_age_ns,
                now_ns,
                Some(path_max),
                Ok(()),
            ) == Some(
                ProductSessionError::RouteTransition(RouteTransitionViolation::InactiveRoute),
            )
        }),
{
}

/// No packet carries more than the reported payload, and one carries that much.
pub proof fn law_largest_payload_is_the_largest(packets: Seq<PacketView>)
    ensures
        forall|i: int|
            0 <= i < packets.len() ==> (#[trigger] packets[i]).payload.len() <= largest_payload(
                packets,
            ),
        packets.len() > 0 ==> exists|i: int|
            0 <= i < packets.len() && (#[trigger] packets[i]).payload.len() == largest_payload(
                packets,
            ),
    decreases packets.len(),
{
    if packets.len() > 0 {
        let earlier = packets.drop_last();
        law_largest_payload_is_the_largest(earlier);
        assert forall|i: int| 0 <= i < packets.len() implies (#[trigger] packets[i]).payload.len()
            <= largest_payload(packets) by {
            if i < packets.len() - 1 {
                assert(earlier[i] == packets[i]);
            }
        }
        if packets.last().payload.len() > largest_payload(earlier) {
            assert(packets[packets.len() - 1].payload.len() == largest_payload(packets));
        } else if earlier.len() > 0 {
            let at = choose|i: int|
                0 <= i < earlier.len() && (#[trigger] earlier[i]).payload.len() == largest_payload(
                    earlier,
                );
            assert(packets[at] == earlier[at]);
        } else {
            assert(packets[0].payload.len() == largest_payload(packets));
        }
    }
}

/// The packets that count as sent are those before the first that was not.
pub proof fn law_sending_stops_at_the_first_drop(outcomes: Seq<MediaSendOutcome>)
    ensures
        sent_before_abort(outcomes) <= outcomes.len(),
        forall|i: int|
            0 <= i < sent_before_abort(outcomes) ==> #[trigger] outcomes[i]
                == MediaSendOutcome::Sent,
        sent_before_abort(outcomes) < outcomes.len() ==> outcomes[sent_before_abort(
            outcomes,
        ) as int] != MediaSendOutcome::Sent,
    decreases outcomes.len(),
{
    if outcomes.len() > 0 && outcomes[0] == MediaSendOutcome::Sent {
        let rest = outcomes.skip(1);
        law_sending_stops_at_the_first_drop(rest);
        assert forall|i: int| 0 <= i < sent_before_abort(outcomes) implies #[trigger] outcomes[i]
            == MediaSendOutcome::Sent by {
            if i > 0 {
                assert(rest[i - 1] == outcomes[i]);
            }
        }
    }
}

/// A datagram is handed to the connection exactly if it carries its own expiry,
/// is not expired and fits. Otherwise the first of these that fails is told.
pub proof fn law_datagrams_are_admitted(
    actual: u64,
    datagram_len: usize,
    now_ns: u64,
    expires_at_ns: u64,
    limit: usize,
    error: ProtocolError,
)
    ensures
        ({
            let verdict = media_admission(
                Ok(actual),
                datagram_len,
                now_ns,
                expires_at_ns,
                Some(limit),
            );
            &&& actual == expires_at_ns && now_ns < expires_at_ns && datagram_len <= limit
                ==> verdict == Ok::<Option<MediaSendOutcome>, QuicTransportError>(None)
            &&& actual != expires_at_ns ==> verdict == Err::<
                Option<MediaSendOutcome>,
                QuicTransportError,
            >(QuicTransportError::ExpiryMismatch { expected: expires_at_ns, actual })
            &&& actual == expires_at_ns && now_ns >= expires_at_ns ==> verdict == Ok::<
                Option<MediaSendOutcome>,
                QuicTransportError,
            >(Some(MediaSendOutcome::DroppedExpired))
            &&& actual == expires_at_ns && now_ns < expires_at_ns && datagram_len > limit
                ==> verdict == Ok::<Option<MediaSendOutcome>, QuicTransportError>(
                Some(MediaSendOutcome::DroppedTooLarge),
            )
        }),
        actual == expires_at_ns && now_ns < expires_at_ns ==> media_admission(
            Ok(actual),
            datagram_len,
            now_ns,
            expires_at_ns,
            None,
        ) == Ok::<Option<MediaSendOutcome>, QuicTransportError>(
            Some(MediaSendOutcome::Unsupported),
        ),
        media_admission(Err(error), datagram_len, now_ns, expires_at_ns, Some(limit)) == Err::<
            Option<MediaSendOutcome>,
            QuicTransportError,
        >(QuicTransportError::Protocol(error)),
{
}

/// A connection is worth another try exactly if its path timed out or was
/// reset, whether that showed on the connection, a read or a write.
pub proof fn law_lost_paths_are_retried(error: QuicTransportError)
    ensures
        error.reports_path_loss() <==> ({
            ||| error == QuicTransportError::Connection(ConnectionLoss::TimedOut)
            ||| error == QuicTransportError::Connection(ConnectionLoss::Reset)
            ||| error == QuicTransportError::Read(
                ReadFault::ConnectionLost(ConnectionLoss::TimedOut),
            )
            ||| error == QuicTransportError::Read(ReadFault::ConnectionLost(ConnectionLoss::Reset))
            ||| error == QuicTransportError::Write(
                WriteFault::ConnectionLost(ConnectionLoss::TimedOut),
            )
            ||| error == QuicTransportError::Write(
                WriteFault::ConnectionLost(ConnectionLoss::Reset),
            )
        }),
{
}

// ---------------------------------------------------------------------------
// Receiving
// ---------------------------------------------------------------------------
/// A frame that completes under an unchanged stamp is handed to the application
/// with its bytes and times whenever its number is greater than that of the
/// last one, however much greater, and whenever it is the first. From then on
/// it is the last one.
pub proof fn law_newer_frame_is_delivered(
    view: MediaReceiverView,
    active: SessionStamp,
    header: MediaHeader,
    bytes: Seq<u8>,
    first_fragment_ns: u64,
    completed_ns: u64,
)
    requires
        view.last_delivered matches Some(last) ==> last < header.frame_id,
    ensures
        view.judging(
            active,
            active,
            Ok(OutcomeView::Complete { header, bytes, first_fragment_ns, completed_ns }),
        ) == (
            MediaReceiverView {
                config: view.config,
                wire: view.wire,
                reassembler: view.reassembler,
                route_epoch: view.route_epoch,
                last_delivered: Some(header.frame_id),
            },
            Ok::<Option<DeliveredFrame>, ProductSessionError>(
                Some(DeliveredFrame { header, bytes, first_fragment_ns, completed_ns }),
            ),
        ),
{
}

/// A frame whose number is not greater than that of the last one is held back,
/// and so is every frame that completes after the stamp moved on. Neither
/// changes the receiver.
pub proof fn law_older_frame_is_held_back(
    view: MediaReceiverView,
    active: SessionStamp,
    current: SessionStamp,
    header: MediaHeader,
    bytes: Seq<u8>,
    first_fragment_ns: u64,
    completed_ns: u64,
    last: u64,
)
    requires
        current != active || (view.last_delivered == Some(last) && header.frame_id <= last),
    ensures
        view.judging(
            active,
            current,
            Ok(OutcomeView::Complete { header, bytes, first_fragment_ns, completed_ns }),
        ) == (view, Ok::<Option<DeliveredFrame>, ProductSessionError>(None)),
{
}

/// A frame that is not complete delivers nothing and changes nothing.
pub proof fn law_incomplete_frame_is_awaited(
    view: MediaReceiverView,
    active: SessionStamp,
    current: SessionStamp,
    key: FrameKey,
    received_bytes: nat,
)
    ensures
        view.judging(active, current, Ok(OutcomeView::Pending { key, received_bytes })) == (
            view,
            Ok::<Option<DeliveredFrame>, ProductSessionError>(None),
        ),
        view.judging(active, current, Ok(OutcomeView::Duplicate { key })) == (
            view,
            Ok::<Option<DeliveredFrame>, ProductSessionError>(None),
        ),
{
}

/// A datagram of a bygone epoch, of a frame already delivered, in conflict with
/// what was received, or beyond the caps is passed over. Every other failure
/// ends the session, unless the stamp moved on.
pub proof fn law_stray_datagrams_are_passed_over(
    view: MediaReceiverView,
    active: SessionStamp,
    current: SessionStamp,
    error: TransportError,
)
    ensures
        ({
            let stray = {
                ||| error is StaleCodecEpoch
                ||| error is ReplayDetected
                ||| error is MetadataConflict
                ||| error is FragmentConflict
                ||| error is FragmentOverlap
                ||| error is FragmentEntryLimit
                ||| error is ReassemblyCapacity
                ||| error is FrameExceedsReassemblyBudget
            };
            &&& skips_datagram(error) == stray
            &&& view.judging(active, current, Err(error)) == (
                view,
                if stray || current != active {
                    Ok::<Option<DeliveredFrame>, ProductSessionError>(None)
                } else {
                    Err::<Option<DeliveredFrame>, ProductSessionError>(
                        ProductSessionError::Transport(error),
                    )
                },
            )
        }),
{
}

/// On the route it was built for, the receiver hands every datagram of the
/// session to reassembly as it came, and keeps the rest.
pub proof fn law_datagrams_reach_reassembly(
    view: MediaReceiverView,
    active: SessionStamp,
    inner_len: usize,
    packet: Result<PacketView, ProtocolError>,
    now_ns: u64,
)
    requires
        view.route_epoch == active.route_epoch,
    ensures
        ({
            let datagram = ReceivedMediaView { stamp: active, inner_len, packet };
            let stored = view.storing(true, active, Ok(datagram), now_ns);
            let step = view.reassembler.ingesting(inner_len, packet, now_ns);
            &&& stored.1 == Ok::<Result<OutcomeView, TransportError>, ProductSessionError>(step.1)
            &&& stored.0.reassembler == step.0
            &&& stored.0.last_delivered == view.last_delivered
            &&& stored.0.route_epoch == view.route_epoch
            &&& stored.0.config == view.config
            &&& stored.0.wire == view.wire
        }),
{
}

/// On another route reassembly starts afresh, without frames and at the first
/// codec epoch. What was delivered stays delivered.
pub proof fn law_new_route_starts_afresh(
    view: MediaReceiverView,
    active: SessionStamp,
    inner_len: usize,
    packet: Result<PacketView, ProtocolError>,
    now_ns: u64,
)
    requires
        view.route_epoch != active.route_epoch,
    ensures
        ({
            let fresh = empty_reassembler(view.config, view.wire);
            let datagram = ReceivedMediaView { stamp: active, inner_len, packet };
            let stored = view.storing(true, active, Ok(datagram), now_ns);
            let step = fresh.ingesting(inner_len, packet, now_ns);
            &&& fresh.frames == Map::<FrameKey, FrameView>::empty()
            &&& fresh.active_codec_epoch == 1
            &&& fresh.config == view.config
            &&& fresh.wire == view.wire
            &&& fresh.stats.datagrams_accepted == 0
            &&& fresh.stats.frames_completed == 0
            &&& stored.1 == Ok::<Result<OutcomeView, TransportError>, ProductSessionError>(step.1)
            &&& stored.0.reassembler == step.0
            &&& stored.0.last_delivered == view.last_delivered
            &&& stored.0.route_epoch == active.route_epoch
            &&& stored.0.config == view.config
            &&& stored.0.wire == view.wire
        }),
{
}

/// A datagram that the codec refuses, that carries another stamp, or that comes
/// over a route without authority leaves the receiver as it was.
pub proof fn law_foreign_datagrams_are_refused(
    view: MediaReceiverView,
    active: SessionStamp,
    current: SessionStamp,
    datagram: ReceivedMediaView,
    error: ProtocolError,
    now_ns: u64,
)
    ensures
        datagram.stamp != active ==> view.taking(true, active, current, Ok(datagram), now_ns) == (
            view,
            Err::<Option<DeliveredFrame>, ProductSessionError>(
                ProductSessionError::PeerProtocol(
                    ProductProtocolViolation::StampMismatch {
                        expected: active,
                        actual: datagram.stamp,
                    },
                ),
            ),
        ),
        view.taking(true, active, current, Err(error), now_ns) == (
            view,
            Err::<Option<DeliveredFrame>, ProductSessionError>(ProductSessionError::Protocol(error)),
        ),
        view.taking(false, active, current, Ok(datagram), now_ns) == (
            view,
            Err::<Option<DeliveredFrame>, ProductSessionError>(
                ProductSessionError::RouteTransition(RouteTransitionViolation::InactiveRoute),
            ),
        ),
{
}

} // verus!
