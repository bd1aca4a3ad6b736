//! What the receiver of a session makes of a frame that the sender split.

use crate::control::SessionStamp;
use crate::error::{ProtocolError, TransportError};
use crate::fragment::{
    fragments, law_fragments_fit, law_fragments_join_to_the_frame, FragmentSpec,
};
use crate::media::{key_of, FrameKey, PacketView};
use crate::product::{DeliveredFrame, MediaReceiverView, ProductSessionError, ReceivedMediaView};
use crate::reassembly::{FrameView, OutcomeView};
use crate::reassembly_laws::{
    after, answer, frame_key, has_room_for, is_delivery, law_any_order_gives_the_frame_back,
    payload_bytes, Arrival,
};
use crate::replay::{is_replay, remembered};
use crate::session::{EndpointView, SocketError};
use vstd::prelude::*;

verus! {

/// A datagram of the session.
pub open spec fn carried(stamp: SessionStamp, arrival: Arrival) -> ReceivedMediaView {
    ReceivedMediaView { stamp, inner_len: arrival.datagram_len, packet: arrival.packet }
}

/// The receiver after a run of datagrams of the session.
pub open spec fn received(
    view: MediaReceiverView,
    stamp: SessionStamp,
    arrivals: Seq<Arrival>,
) -> MediaReceiverView
    decreases arrivals.len(),
{
    if arrivals.len() == 0 {
        view
    } else {
        let last = arrivals.last();
        received(view, stamp, arrivals.drop_last()).taking(
            true,
            stamp,
            stamp,
            Ok(carried(stamp, last)),
            last.now_ns,
        ).0
    }
}

/// What the application gets with the last datagram of a run.
pub open spec fn delivery(
    view: MediaReceiverView,
    stamp: SessionStamp,
    arrivals: Seq<Arrival>,
) -> Result<Option<DeliveredFrame>, ProductSessionError>
    recommends
        arrivals.len() > 0,
{
    let last = arrivals.last();
    received(view, stamp, arrivals.drop_last()).taking(
        true,
        stamp,
        stamp,
        Ok(carried(stamp, last)),
        last.now_ns,
    ).1
}

proof fn lemma_pending_run(
    view: MediaReceiverView,
    stamp: SessionStamp,
    arrivals: Seq<Arrival>,
    count: int,
)
    requires
        0 <= count <= arrivals.len(),
        forall|i: int|
            1 <= i <= count ==> (#[trigger] answer(
                view.on_route(stamp).reassembler,
                arrivals.take(i),
            )) matches Ok(OutcomeView::Pending { .. }),
    ensures
        received(view, stamp, arrivals.take(count)).on_route(stamp) == (MediaReceiverView {
            reassembler: after(view.on_route(stamp).reassembler, arrivals.take(count)),
            ..view.on_route(stamp)
        }),
        count > 0 ==> delivery(view, stamp, arrivals.take(count)) == Ok::<
            Option<DeliveredFrame>,
            ProductSessionError,
        >(None),
    decreases count,
{
    if count > 0 {
        lemma_pending_run(view, stamp, arrivals, count - 1);
        assert(arrivals.take(count).drop_last() =~= arrivals.take(count - 1));
        let outcome = answer(view.on_route(stamp).reassembler, arrivals.take(count));
        assert(outcome matches Ok(OutcomeView::Pending { .. }));
    }
}

/// The packets of a frame with a greater number than the last one that was
/// delivered, however much greater, taken in any order on the route of the
/// session, hand exactly the frame to the application with the last of them,
/// and nothing before that.
pub proof fn law_sent_frame_is_delivered(
    view: MediaReceiverView,
    stamp: SessionStamp,
    spec: FragmentSpec,
    frame: Seq<u8>,
    budget: usize,
    arrivals: Seq<Arrival>,
    order: Seq<int>,
)
    requires
        view.on_route(stamp).reassembler.config.is_valid(view.on_route(stamp).reassembler.wire),
        view.on_route(stamp).reassembler.frames == Map::<FrameKey, FrameView>::empty(),
        has_room_for(view.on_route(stamp).reassembler, spec, frame, budget),
        is_delivery(view.on_route(stamp).reassembler, spec, frame, budget, arrivals, order),
        view.last_delivered matches Some(last) ==> last < spec.frame_id,
    ensures
        delivery(view, stamp, arrivals) matches Ok(Some(delivered)) && delivered.bytes == frame
            && delivered.header.frame_id == spec.frame_id && delivered.first_fragment_ns
            == arrivals[0].now_ns && delivered.completed_ns == arrivals.last().now_ns,
        forall|i: int|
            1 <= i < arrivals.len() ==> (#[trigger] delivery(view, stamp, arrivals.take(i)))
                == Ok::<Option<DeliveredFrame>, ProductSessionError>(None),
{
    let reassembler = view.on_route(stamp).reassembler;
    let packets = fragments(spec, reassembler.wire, frame, budget - reassembler.wire.header_len);
    law_any_order_gives_the_frame_back(reassembler, spec, frame, budget, arrivals, order);
    assert forall|i: int| 1 <= i < arrivals.len() implies (#[trigger] delivery(
        view,
        stamp,
        arrivals.take(i),
    )) == Ok::<Option<DeliveredFrame>, ProductSessionError>(None) by {
        lemma_pending_run(view, stamp, arrivals, i);
    }
    assert(packets.len() >= 1) by {
        if packets.len() == 0 {
            law_fragments_join_to_the_frame(spec, reassembler.wire, frame, budget);
            assert(packets =~= Seq::empty());
        }
    }
    let count = arrivals.len() as int;
    lemma_pending_run(view, stamp, arrivals, count - 1);
    assert(arrivals.take(count - 1) =~= arrivals.drop_last());
    law_fragments_fit(spec, reassembler.wire, frame, budget, order[0]);
}

// ---------------------------------------------------------------------------
// An authenticated endpoint delivers every frame once
// ---------------------------------------------------------------------------
/// The endpoint after a run of media datagrams.
pub open spec fn endpoint_after(view: EndpointView, arrivals: Seq<Arrival>) -> EndpointView
    decreases arrivals.len(),
{
    if arrivals.len() == 0 {
        view
    } else {
        let last = arrivals.last();
        endpoint_after(view, arrivals.drop_last()).taking_media(
            last.datagram_len,
            last.packet,
            last.now_ns,
        ).0
    }
}

/// What the endpoint makes of the last media datagram of a run.
pub open spec fn endpoint_answer(view: EndpointView, arrivals: Seq<Arrival>) -> Result<
    OutcomeView,
    SocketError,
>
    recommends
        arrivals.len() > 0,
{
    let last = arrivals.last();
    endpoint_after(view, arrivals.drop_last()).taking_media(
        last.datagram_len,
        last.packet,
        last.now_ns,
    ).1
}

/// Which frame the last media datagram of a run delivers.
pub open spec fn delivered_by(view: EndpointView, arrivals: Seq<Arrival>) -> Option<FrameKey> {
    match endpoint_answer(view, arrivals) {
        Ok(OutcomeView::Complete { header, .. }) => Some(key_of(header)),
        _ => None,
    }
}

/// What a datagram delivers is the frame of its packet, and was not delivered
/// before.
proof fn lemma_delivery_is_new(
    view: EndpointView,
    datagram_len: usize,
    packet: Result<PacketView, ProtocolError>,
    now_ns: u64,
)
    requires
        view.taking_media(datagram_len, packet, now_ns).1 matches Ok(OutcomeView::Complete { .. }),
    ensures
        view.taking_media(datagram_len, packet, now_ns).1 matches Ok(
            OutcomeView::Complete { header, .. },
        ) && packet matches Ok(sent) && key_of(header) == key_of(sent.header) && !is_replay(
            view.delivered,
            key_of(header),
        ) && view.taking_media(datagram_len, packet, now_ns).0.delivered == remembered(
            view.delivered,
            key_of(header),
        ),
{
}

proof fn lemma_delivered_stays(view: EndpointView, arrivals: Seq<Arrival>, first: int, key: FrameKey)
    requires
        0 <= first <= arrivals.len(),
        endpoint_after(view, arrivals.take(first)).delivered.contains(key),
    ensures
        endpoint_after(view, arrivals).delivered.contains(key),
    decreases arrivals.len(),
{
    if first < arrivals.len() {
        assert(arrivals.drop_last().take(first) =~= arrivals.take(first));
        lemma_delivered_stays(view, arrivals.drop_last(), first, key);
    } else {
        assert(arrivals.take(first) =~= arrivals);
    }
}

/// A datagram of a frame that was delivered is refused as a replay, with the
/// number of the frame, and changes nothing.
pub proof fn law_replay_is_refused(
    view: EndpointView,
    datagram_len: usize,
    packet: PacketView,
    now_ns: u64,
)
    requires
        packet.header.frame_id > 0,
        view.delivered.contains(key_of(packet.header)),
    ensures
        view.taking_media(datagram_len, Ok(packet), now_ns) == (
            view,
            Err::<OutcomeView, SocketError>(
                SocketError::Transport(TransportError::ReplayDetected(packet.header.frame_id)),
            ),
        ),
{
}

/// In no run of media datagrams is a numbered frame delivered twice.
pub proof fn law_no_frame_is_delivered_twice(
    view: EndpointView,
    arrivals: Seq<Arrival>,
    earlier: int,
    later: int,
)
    requires
        1 <= earlier < later <= arrivals.len(),
        delivered_by(view, arrivals.take(earlier)) matches Some(key) && key.frame_id > 0,
    ensures
        delivered_by(view, arrivals.take(later)) != delivered_by(view, arrivals.take(earlier)),
{
    let first = arrivals.take(earlier);
    let second = arrivals.take(later);
    let key = delivered_by(view, first)->0;
    lemma_delivery_is_new(
        endpoint_after(view, first.drop_last()),
        first.last().datagram_len,
        first.last().packet,
        first.last().now_ns,
    );
    assert(endpoint_after(view, first).delivered.contains(key));
    assert(second.drop_last().take(earlier) =~= first);
    lemma_delivered_stays(view, second.drop_last(), earlier, key);
    if delivered_by(view, second) is Some {
        lemma_delivery_is_new(
            endpoint_after(view, second.drop_last()),
            second.last().datagram_len,
            second.last().packet,
            second.last().now_ns,
        );
    }
}

proof fn lemma_pending_endpoint(view: EndpointView, arrivals: Seq<Arrival>, key: FrameKey, count: int)
    requires
        0 <= count <= arrivals.len(),
        !is_replay(view.delivered, key),
        forall|i: int|
            0 <= i < count ==> (#[trigger] arrivals[i]).packet is Ok && key_of(
                arrivals[i].packet->Ok_0.header,
            ) == key,
        forall|i: int|
            1 <= i <= count ==> (#[trigger] answer(view.reassembler, arrivals.take(i))) matches Ok(
                OutcomeView::Pending { .. },
            ),
    ensures
        endpoint_after(view, arrivals.take(count)) == (EndpointView {
            reassembler: after(view.reassembler, arrivals.take(count)),
            ..view
        }),
        count > 0 ==> endpoint_answer(view, arrivals.take(count)) == Ok::<
            OutcomeView,
            SocketError,
        >(answer(view.reassembler, arrivals.take(count))->Ok_0),
    decreases count,
{
    if count > 0 {
        lemma_pending_endpoint(view, arrivals, key, count - 1);
        assert(arrivals.take(count).drop_last() =~= arrivals.take(count - 1));
        assert(arrivals.take(count).last() == arrivals[count - 1]);
        let outcome = answer(view.reassembler, arrivals.take(count));
        assert(outcome matches Ok(OutcomeView::Pending { .. }));
    }
}

/// The packets of a frame that was not delivered yet, taken in any order by an
/// endpoint with no frame under construction, are no replay of one another:
/// the frame completes with the last of them, and with no earlier one. From
/// then on every further datagram of the numbered frame is refused as a replay
/// and changes nothing.
pub proof fn law_frame_completes_once(
    view: EndpointView,
    spec: FragmentSpec,
    frame: Seq<u8>,
    budget: usize,
    arrivals: Seq<Arrival>,
    order: Seq<int>,
    again: Arrival,
)
    requires
        view.reassembler.config.is_valid(view.reassembler.wire),
        view.reassembler.frames == Map::<FrameKey, FrameView>::empty(),
        has_room_for(view.reassembler, spec, frame, budget),
        is_delivery(view.reassembler, spec, frame, budget, arrivals, order),
        !is_replay(view.delivered, frame_key(spec)),
        again.packet matches Ok(packet) && key_of(packet.header) == frame_key(spec),
    ensures
        forall|i: int|
            1 <= i < arrivals.len() ==> (#[trigger] endpoint_answer(view, arrivals.take(i)))
                == Ok::<OutcomeView, SocketError>(
                OutcomeView::Pending {
                    key: frame_key(spec),
                    received_bytes: payload_bytes(arrivals.take(i)),
                },
            ),
        endpoint_answer(view, arrivals) matches Ok(
            OutcomeView::Complete { header, bytes, first_fragment_ns, completed_ns },
        ) && key_of(header) == frame_key(spec) && bytes == frame && first_fragment_ns
            == arrivals[0].now_ns && completed_ns == arrivals.last().now_ns,
        spec.frame_id > 0 ==> endpoint_answer(view, arrivals.push(again)) == Err::<
            OutcomeView,
            SocketError,
        >(SocketError::Transport(TransportError::ReplayDetected(spec.frame_id))),
        spec.frame_id > 0 ==> endpoint_after(view, arrivals.push(again)) == endpoint_after(
            view,
            arrivals,
        ),
{
    let wire = view.reassembler.wire;
    let cap = budget - wire.header_len;
    let packets = fragments(spec, wire, frame, cap);
    let key = frame_key(spec);
    law_any_order_gives_the_frame_back(view.reassembler, spec, frame, budget, arrivals, order);
    assert forall|i: int| 0 <= i < arrivals.len() implies (#[trigger] arrivals[i]).packet is Ok
        && key_of(arrivals[i].packet->Ok_0.header) == key by {
        law_fragments_fit(spec, wire, frame, budget, order[i]);
    }
    assert forall|i: int| 1 <= i < arrivals.len() implies (#[trigger] endpoint_answer(
        view,
        arrivals.take(i),
    )) == Ok::<OutcomeView, SocketError>(
        OutcomeView::Pending { key, received_bytes: payload_bytes(arrivals.take(i)) },
    ) by {
        lemma_pending_endpoint(view, arrivals, key, i);
        assert(answer(view.reassembler, arrivals.take(i)) is Ok);
    }
    assert(packets.len() >= 1) by {
        if packets.len() == 0 {
            law_fragments_join_to_the_frame(spec, wire, frame, budget);
            assert(packets =~= Seq::empty());
        }
    }
    let count = arrivals.len() as int;
    lemma_pending_endpoint(view, arrivals, key, count - 1);
    assert(arrivals.take(count - 1) =~= arrivals.drop_last());
    assert(arrivals[count - 1].packet is Ok);
    assert(arrivals[0].packet is Ok);
    assert(arrivals.push(again).drop_last() =~= arrivals);
}

} // verus!
