//! What reassembly promises as a whole.

use crate::counter::raised;
use crate::error::{ProtocolError, TransportError};
use crate::fragment::{
    chunk_count, chunk_end, fragment_error, fragments, joined,
    law_fragments_fit, law_fragments_join_to_the_frame, lemma_chunk_bounds, FragmentSpec,
};
use crate::media::{key_of, FrameKey, MediaWire, PacketView};
use crate::reassembly::{
    assembled, by_declared, by_entries, holds, laid_out, lemma_assembled_len,
    lemma_insert_keeps_layout, lemma_rank, lemma_span, lemma_stored_insert, lemma_total_remove,
    occupied, overlaps,
    rank, stalest, stored_bytes, total, FragmentView, FrameView, OutcomeView, ReassemblerView,
    ReassemblyStats,
};
use vstd::prelude::*;

verus! {

/// One datagram with its decoded packet and arrival time.
pub struct Arrival {
    pub datagram_len: usize,
    pub packet: Result<PacketView, ProtocolError>,
    pub now_ns: u64,
}

/// The reassembler after a run of datagrams.
pub open spec fn after(view: ReassemblerView, arrivals: Seq<Arrival>) -> ReassemblerView
    decreases arrivals.len(),
{
    if arrivals.len() == 0 {
        view
    } else {
        let last = arrivals.last();
        after(view, arrivals.drop_last()).ingesting(
            last.datagram_len,
            last.packet,
            last.now_ns,
        ).0
    }
}

/// What the last datagram of a run is answered.
pub open spec fn answer(view: ReassemblerView, arrivals: Seq<Arrival>) -> Result<
    OutcomeView,
    TransportError,
>
    recommends
        arrivals.len() > 0,
{
    let last = arrivals.last();
    after(view, arrivals.drop_last()).ingesting(last.datagram_len, last.packet, last.now_ns).1
}

/// How many payload bytes the datagrams of a run bring.
pub open spec fn payload_bytes(arrivals: Seq<Arrival>) -> nat
    decreases arrivals.len(),
{
    if arrivals.len() == 0 {
        0
    } else {
        payload_bytes(arrivals.drop_last()) + match arrivals.last().packet {
            Ok(packet) => packet.payload.len(),
            Err(_) => 0,
        }
    }
}

/// Every frame under construction belongs to the active codec epoch.
pub open spec fn frames_are_current(view: ReassemblerView) -> bool {
    forall|key: FrameKey| #[trigger]
        view.frames.contains_key(key) ==> key.codec_epoch == view.active_codec_epoch
}

/// The active codec epoch never goes back, and while every stored frame
/// belongs to it, no datagram leaves a frame of another epoch behind.
pub proof fn law_codec_epoch_is_monotonic(
    view: ReassemblerView,
    datagram_len: usize,
    packet: Result<PacketView, ProtocolError>,
    now_ns: u64,
)
    ensures
        view.active_codec_epoch <= view.ingesting(
            datagram_len,
            packet,
            now_ns,
        ).0.active_codec_epoch,
        frames_are_current(view) ==> frames_are_current(
            view.ingesting(datagram_len, packet, now_ns).0,
        ),
{
    let current = view.expired(now_ns);
    if let Ok(packet) = packet {
        let bumped = current.at_epoch(packet.header.codec_epoch);
        lemma_room_keeps_epoch(bumped, packet.header.frame_len as int);
    }
}

proof fn lemma_room_keeps_epoch(view: ReassemblerView, declared: int)
    ensures
        view.with_room(declared).active_codec_epoch == view.active_codec_epoch,
        view.with_room(declared).config == view.config,
        view.with_room(declared).wire == view.wire,
        frames_are_current(view) ==> frames_are_current(view.with_room(declared)),
    decreases view.frames.dom().len(),
{
    if view.with_room(declared) != view {
        lemma_room_keeps_epoch(view.evicting(), declared);
    }
}

/// A datagram that was just stored is answered as a duplicate when it comes
/// again before the frame's age runs out, and the second copy does nothing but
/// raise the duplicate counter and let old frames expire.
pub proof fn law_exact_duplicate_is_idempotent(
    view: ReassemblerView,
    datagram_len: usize,
    packet: PacketView,
    first_ns: u64,
    second_ns: u64,
)
    requires
        view.is_valid(),
        packet.is_valid(),
        view.ingesting(datagram_len, Ok(packet), first_ns).1 matches Ok(
            OutcomeView::Pending { .. },
        ),
        ({
            let stored = view.ingesting(datagram_len, Ok(packet), first_ns).0;
            second_ns - stored.frames[key_of(packet.header)].first_seen_ns
                < view.config.max_frame_age_ns
        }),
    ensures
        ({
            let stored = view.ingesting(datagram_len, Ok(packet), first_ns).0;
            let again = stored.ingesting(datagram_len, Ok(packet), second_ns);
            &&& again.1 == Ok::<OutcomeView, TransportError>(
                OutcomeView::Duplicate { key: key_of(packet.header) },
            )
            &&& again.0 == (ReassemblerView {
                stats: ReassemblyStats {
                    duplicate_fragments: raised(stored.stats.duplicate_fragments, 1),
                    ..stored.expired(second_ns).stats
                },
                ..stored.expired(second_ns)
            })
        }),
{
    let key = key_of(packet.header);
    let fragment = FragmentView {
        offset: packet.header.fragment_offset,
        bytes: packet.payload,
    };
    let current = view.expired(first_ns).at_epoch(packet.header.codec_epoch);
    lemma_room_keeps_epoch(current, packet.header.frame_len as int);
    let known = current.frames.contains_key(key);
    let frame = if known {
        current.frames[key]
    } else {
        FrameView::fresh(packet.header, first_ns)
    };
    let longer = frame.with_fragment(fragment, first_ns);
    let stored = view.ingesting(datagram_len, Ok(packet), first_ns).0;
    assert(stored.frames.contains_key(key) && stored.frames[key] == longer);
    assert(longer.metadata_matches(packet.header));
    let limit = packet.header.frame_len as int;
    assert(laid_out(frame.fragments, limit)) by {
        if known {
            assert(view.frames.contains_key(key));
            assert(view.frame_is_valid(key));
        }
    }
    lemma_rank(frame.fragments, limit, fragment.offset);
    let at = rank(frame.fragments, fragment.offset) as int;
    assert(longer.fragments[at] == fragment);
    assert(holds(longer.fragments, fragment));
    let later = stored.expired(second_ns);
    assert(later.frames.contains_key(key) && later.frames[key] == longer);
    assert(later.at_epoch(packet.header.codec_epoch) == later);
}

/// The two reassemblers differ in their counters at most.
pub open spec fn equal_but_for_stats(left: ReassemblerView, right: ReassemblerView) -> bool {
    left == (ReassemblerView { stats: left.stats, ..right })
}

proof fn lemma_room_ignores_stats(left: ReassemblerView, right: ReassemblerView, declared: int)
    requires
        equal_but_for_stats(left, right),
    ensures
        equal_but_for_stats(left.with_room(declared), right.with_room(declared)),
    decreases left.frames.dom().len(),
{
    if left.is_full_for(declared) && left.frames.dom().finite() && left.frames.contains_key(
        stalest(left.frames),
    ) {
        lemma_room_ignores_stats(left.evicting(), right.evicting(), declared);
    }
}

proof fn lemma_step_ignores_stats(left: ReassemblerView, right: ReassemblerView, arrival: Arrival)
    requires
        equal_but_for_stats(left, right),
    ensures
        ({
            let ours = left.ingesting(arrival.datagram_len, arrival.packet, arrival.now_ns);
            let theirs = right.ingesting(arrival.datagram_len, arrival.packet, arrival.now_ns);
            &&& ours.1 == theirs.1
            &&& equal_but_for_stats(ours.0, theirs.0)
        }),
{
    assert(left.expired(arrival.now_ns).frames =~= right.expired(arrival.now_ns).frames);
    if let Ok(packet) = arrival.packet {
        let ours = left.expired(arrival.now_ns).at_epoch(packet.header.codec_epoch);
        let theirs = right.expired(arrival.now_ns).at_epoch(packet.header.codec_epoch);
        assert(ours.frames =~= theirs.frames);
        lemma_room_ignores_stats(ours, theirs, packet.header.frame_len as int);
    }
}

/// The counters decide nothing: two reassemblers that differ in them alone
/// answer every later datagram alike, and differ in nothing else afterwards.
pub proof fn law_counters_decide_nothing(
    left: ReassemblerView,
    right: ReassemblerView,
    arrivals: Seq<Arrival>,
)
    requires
        equal_but_for_stats(left, right),
    ensures
        equal_but_for_stats(after(left, arrivals), after(right, arrivals)),
        arrivals.len() > 0 ==> answer(left, arrivals) == answer(right, arrivals),
    decreases arrivals.len(),
{
    if arrivals.len() > 0 {
        law_counters_decide_nothing(left, right, arrivals.drop_last());
        lemma_step_ignores_stats(
            after(left, arrivals.drop_last()),
            after(right, arrivals.drop_last()),
            arrivals.last(),
        );
    }
}

/// A datagram whose fragment is already stored, at a time at which no frame
/// expires, is answered as a duplicate and changes nothing but the duplicate
/// counter. Everything that arrives later is answered as if it had not come.
pub proof fn law_duplicate_leaves_no_trace(
    view: ReassemblerView,
    datagram_len: usize,
    packet: PacketView,
    now_ns: u64,
    later: Seq<Arrival>,
)
    requires
        view.is_valid(),
        datagram_len <= view.config.max_datagram_bytes,
        packet.header.flags & view.wire.parity_flag == 0,
        view.frames.contains_key(key_of(packet.header)),
        view.frames[key_of(packet.header)].metadata_matches(packet.header),
        holds(
            view.frames[key_of(packet.header)].fragments,
            (FragmentView { offset: packet.header.fragment_offset, bytes: packet.payload }),
        ),
        forall|key: FrameKey| #[trigger]
            view.frames.contains_key(key) ==> now_ns - view.frames[key].first_seen_ns
                < view.config.max_frame_age_ns,
    ensures
        ({
            let step = view.ingesting(datagram_len, Ok(packet), now_ns);
            &&& step.1 == Ok::<OutcomeView, TransportError>(
                OutcomeView::Duplicate { key: key_of(packet.header) },
            )
            &&& step.0 == (ReassemblerView {
                stats: ReassemblyStats {
                    duplicate_fragments: raised(view.stats.duplicate_fragments, 1),
                    ..view.stats
                },
                ..view
            })
            &&& equal_but_for_stats(after(step.0, later), after(view, later))
            &&& later.len() > 0 ==> answer(step.0, later) == answer(view, later)
        }),
{
    let key = key_of(packet.header);
    let step = view.ingesting(datagram_len, Ok(packet), now_ns);
    assert(view.frame_is_valid(key));
    lemma_total_remove(view.frames, by_declared(), key);
    assert(view.expired(now_ns).frames =~= view.frames);
    law_counters_decide_nothing(step.0, view, later);
}

/// A fragment that contradicts a stored frame removes the whole frame.
pub proof fn law_conflict_drops_the_frame(
    view: ReassemblerView,
    datagram_len: usize,
    packet: PacketView,
    now_ns: u64,
)
    requires
        ({
            let answer = view.ingesting(datagram_len, Ok(packet), now_ns).1;
            ||| answer == Err::<OutcomeView, TransportError>(
                TransportError::MetadataConflict(key_of(packet.header)),
            )
            ||| answer == Err::<OutcomeView, TransportError>(TransportError::FragmentConflict)
            ||| answer == Err::<OutcomeView, TransportError>(TransportError::FragmentOverlap)
            ||| answer == Err::<OutcomeView, TransportError>(TransportError::FragmentEntryLimit)
        }),
    ensures
        !view.ingesting(datagram_len, Ok(packet), now_ns).0.frames.contains_key(
            key_of(packet.header),
        ),
{
}

// ---------------------------------------------------------------------------
// Any order gives the frame back
// ---------------------------------------------------------------------------
spec fn piece(frame: Seq<u8>, cap: int, index: int) -> FragmentView {
    let start = index * cap;
    FragmentView {
        offset: start as u32,
        bytes: frame.subrange(start, chunk_end(start, cap, frame.len() as int)),
    }
}

/// `stored` are the pieces with the given indices, in increasing order.
spec fn pieces(stored: Seq<FragmentView>, indices: Seq<int>, frame: Seq<u8>, cap: int) -> bool {
    &&& stored.len() == indices.len()
    &&& forall|j: int|
        0 <= j < indices.len() ==> 0 <= #[trigger] indices[j] < chunk_count(
            frame.len() as int,
            cap,
        ) && stored[j] == piece(frame, cap, indices[j])
    &&& forall|i: int, j: int|
        0 <= i < j < indices.len() ==> #[trigger] indices[i] < #[trigger] indices[j]
}

proof fn lemma_piece(frame: Seq<u8>, cap: int, index: int)
    requires
        0 < cap,
        0 < frame.len() <= u32::MAX,
        0 <= index < chunk_count(frame.len() as int, cap),
    ensures
        piece(frame, cap, index).offset == index * cap,
        piece(frame, cap, index).bytes.len() > 0,
        piece(frame, cap, index).offset + piece(frame, cap, index).bytes.len() <= (index + 1)
            * cap,
        piece(frame, cap, index).offset + piece(frame, cap, index).bytes.len() <= frame.len(),
{
    lemma_chunk_bounds(frame.len() as int, cap, index);
    assert((index + 1) * cap == index * cap + cap) by (nonlinear_arith);
}

proof fn lemma_pieces_laid_out(
    stored: Seq<FragmentView>,
    indices: Seq<int>,
    frame: Seq<u8>,
    cap: int,
)
    requires
        0 < cap,
        0 < frame.len() <= u32::MAX,
        pieces(stored, indices, frame, cap),
    ensures
        laid_out(stored, frame.len() as int),
{
    assert forall|i: int| 0 <= i < stored.len() implies (#[trigger] stored[i]).offset
        + stored[i].bytes.len() <= frame.len() by {
        lemma_piece(frame, cap, indices[i]);
    }
    assert forall|i: int, j: int| 0 <= i < j < stored.len() implies (
    #[trigger] stored[i]).offset < (#[trigger] stored[j]).offset && stored[i].offset
        + stored[i].bytes.len() <= stored[j].offset by {
        let (a, b) = (indices[i], indices[j]);
        lemma_piece(frame, cap, a);
        lemma_piece(frame, cap, b);
        assert((a + 1) * cap <= b * cap) by (nonlinear_arith)
            requires
                a + 1 <= b,
                0 < cap,
        ;
    }
}

/// A missing piece can be stored.
proof fn lemma_next_piece(
    stored: Seq<FragmentView>,
    indices: Seq<int>,
    frame: Seq<u8>,
    cap: int,
    next: int,
) -> (grown: Seq<int>)
    requires
        0 < cap,
        0 < frame.len() <= u32::MAX,
        pieces(stored, indices, frame, cap),
        0 <= next < chunk_count(frame.len() as int, cap),
        !indices.contains(next),
    ensures
        !occupied(stored, piece(frame, cap, next).offset),
        !overlaps(stored, piece(frame, cap, next)),
        rank(stored, piece(frame, cap, next).offset) <= stored.len(),
        grown.len() == indices.len() + 1,
        grown.contains(next),
        forall|k: int| grown.contains(k) <==> indices.contains(k) || k == next,
        pieces(
            stored.insert(
                rank(stored, piece(frame, cap, next).offset) as int,
                piece(frame, cap, next),
            ),
            grown,
            frame,
            cap,
        ),
        stored_bytes(stored) < frame.len(),
        stored_bytes(
            stored.insert(
                rank(stored, piece(frame, cap, next).offset) as int,
                piece(frame, cap, next),
            ),
        ) == stored_bytes(stored) + piece(frame, cap, next).bytes.len(),
{
    let len = frame.len() as int;
    let fragment = piece(frame, cap, next);
    lemma_piece(frame, cap, next);
    lemma_pieces_laid_out(stored, indices, frame, cap);
    lemma_rank(stored, len, fragment.offset);
    let at = rank(stored, fragment.offset) as int;
    assert forall|j: int| 0 <= j < stored.len() implies (#[trigger] stored[j]).offset
        != fragment.offset && !crate::reassembly::collide(stored[j], fragment) && (indices[j]
        < next <==> j < at) by {
        let k = indices[j];
        lemma_piece(frame, cap, k);
        assert(k != next);
        if k < next {
            assert((k + 1) * cap <= next * cap && k * cap < next * cap) by (nonlinear_arith)
                requires
                    k + 1 <= next,
                    0 < cap,
            ;
        } else {
            assert((next + 1) * cap <= k * cap && next * cap < k * cap) by (nonlinear_arith)
                requires
                    next + 1 <= k,
                    0 < cap,
            ;
        }
    }
    let grown = indices.insert(at, next);
    let longer = stored.insert(at, fragment);
    assert forall|j: int| 0 <= j < grown.len() implies 0 <= #[trigger] grown[j] < chunk_count(
        len,
        cap,
    ) && longer[j] == piece(frame, cap, grown[j]) by {
        if j < at {
            assert(grown[j] == indices[j]);
        } else if j > at {
            assert(grown[j] == indices[j - 1]);
        }
    }
    assert forall|i: int, j: int| 0 <= i < j < grown.len() implies #[trigger] grown[i]
        < #[trigger] grown[j] by {
        let old_i = if i < at {
            i
        } else {
            i - 1
        };
        let old_j = if j < at {
            j
        } else {
            j - 1
        };
        if i != at && j != at {
            assert(indices[old_i] < indices[old_j]);
        } else if i == at {
            assert(stored[old_j].offset != fragment.offset);
        } else {
            assert(stored[old_i].offset != fragment.offset);
        }
    }
    assert forall|k: int| grown.contains(k) <==> indices.contains(k) || k == next by {
        if indices.contains(k) {
            let j = indices.index_of(k);
            let moved = if j < at {
                j
            } else {
                j + 1
            };
            assert(grown[moved] == k);
        }
        if grown.contains(k) {
            let j = grown.index_of(k);
            if j < at {
                assert(indices[j] == k);
            } else if j > at {
                assert(indices[j - 1] == k);
            }
        }
        assert(grown[at] == next);
    }
    lemma_insert_keeps_layout(stored, len, fragment);
    lemma_stored_insert(stored, at, fragment);
    lemma_span(longer, 0, len);
    grown
}

proof fn lemma_increasing_is_identity(indices: Seq<int>, count: int, at: int)
    requires
        indices.len() == count,
        forall|j: int| 0 <= j < count ==> 0 <= #[trigger] indices[j] < count,
        forall|i: int, j: int|
            0 <= i < j < count ==> #[trigger] indices[i] < #[trigger] indices[j],
        0 <= at < count,
    ensures
        indices[at] >= at,
    decreases at,
{
    if at > 0 {
        lemma_increasing_is_identity(indices, count, at - 1);
        assert(indices[at - 1] < indices[at]);
    }
}

proof fn lemma_increasing_from_above(indices: Seq<int>, count: int, at: int)
    requires
        indices.len() == count,
        forall|j: int| 0 <= j < count ==> 0 <= #[trigger] indices[j] < count,
        forall|i: int, j: int|
            0 <= i < j < count ==> #[trigger] indices[i] < #[trigger] indices[j],
        0 <= at < count,
    ensures
        indices[at] <= at,
    decreases count - at,
{
    if at + 1 < count {
        lemma_increasing_from_above(indices, count, at + 1);
        assert(indices[at] < indices[at + 1]);
    }
}

proof fn lemma_assembled_joins(stored: Seq<FragmentView>, packets: Seq<PacketView>)
    requires
        stored.len() == packets.len(),
        forall|j: int| 0 <= j < stored.len() ==> (#[trigger] stored[j]).bytes == packets[j].payload,
    ensures
        assembled(stored) == joined(packets),
    decreases stored.len(),
{
    if stored.len() > 0 {
        let front = stored.drop_last();
        let packets_front = packets.drop_last();
        assert forall|j: int| 0 <= j < front.len() implies (#[trigger] front[j]).bytes
            == packets_front[j].payload by {
            assert(stored[j].bytes == packets[j].payload);
        }
        lemma_assembled_joins(front, packets_front);
        assert(stored[stored.len() - 1].bytes == packets[stored.len() - 1].payload);
    }
}

/// All pieces together are the frame.
proof fn lemma_all_pieces(
    spec: FragmentSpec,
    wire: MediaWire,
    stored: Seq<FragmentView>,
    indices: Seq<int>,
    frame: Seq<u8>,
    budget: usize,
)
    requires
        fragment_error(wire, frame.len() as int, budget) is None,
        pieces(stored, indices, frame, budget - wire.header_len),
        indices.len() == chunk_count(frame.len() as int, budget - wire.header_len),
    ensures
        assembled(stored) == frame,
        stored_bytes(stored) == frame.len(),
{
    let cap = budget - wire.header_len;
    let packets = fragments(spec, wire, frame, cap);
    let count = chunk_count(frame.len() as int, cap);
    assert forall|j: int| 0 <= j < stored.len() implies (#[trigger] stored[j]).bytes
        == packets[j].payload by {
        lemma_increasing_is_identity(indices, count, j);
        lemma_increasing_from_above(indices, count, j);
        assert(indices[j] == j);
        law_fragments_fit(spec, wire, frame, budget, j);
    }
    lemma_assembled_joins(stored, packets);
    law_fragments_join_to_the_frame(spec, wire, frame, budget);
    lemma_assembled_len(stored);
}

/// The datagrams bring the packets of one frame, each once, in some order, all
/// within the age limit of the first.
pub open spec fn is_delivery(
    view: ReassemblerView,
    spec: FragmentSpec,
    frame: Seq<u8>,
    budget: usize,
    arrivals: Seq<Arrival>,
    order: Seq<int>,
) -> bool {
    let packets = fragments(spec, view.wire, frame, budget - view.wire.header_len);
    &&& arrivals.len() == packets.len()
    &&& order.len() == packets.len()
    &&& order.no_duplicates()
    &&& forall|i: int|
        0 <= i < order.len() ==> {
            &&& 0 <= #[trigger] order[i] < packets.len()
            &&& arrivals[i].packet == Ok::<PacketView, ProtocolError>(packets[order[i]])
            &&& arrivals[i].datagram_len <= view.config.max_datagram_bytes
            &&& arrivals[i].now_ns - arrivals[0].now_ns < view.config.max_frame_age_ns
        }
}

/// The configuration has room for the frame.
pub open spec fn has_room_for(
    view: ReassemblerView,
    spec: FragmentSpec,
    frame: Seq<u8>,
    budget: usize,
) -> bool {
    &&& fragment_error(view.wire, frame.len() as int, budget) is None
    &&& frame.len() <= view.config.max_buffered_bytes
    &&& chunk_count(frame.len() as int, budget - view.wire.header_len)
        <= view.config.max_fragments_per_frame
    &&& spec.flags & view.wire.parity_flag == 0
    &&& spec.codec_epoch >= view.active_codec_epoch
}

/// Which frame the packets belong to.
pub open spec fn frame_key(spec: FragmentSpec) -> FrameKey {
    FrameKey {
        stream_id: spec.stream_id,
        codec_epoch: spec.codec_epoch,
        frame_id: spec.frame_id,
        kind: spec.kind,
    }
}

spec fn only_frame(key: FrameKey, frame: FrameView) -> Map<FrameKey, FrameView> {
    Map::empty().insert(key, frame)
}

proof fn lemma_totals_of_one(key: FrameKey, frame: FrameView)
    ensures
        only_frame(key, frame).dom().finite(),
        only_frame(key, frame).dom().len() == 1,
        total(only_frame(key, frame), by_entries()) == frame.fragments.len(),
        total(only_frame(key, frame), by_declared()) == frame.canonical.frame_len,
{
    let frames = only_frame(key, frame);
    assert(frames.dom() =~= Set::empty().insert(key));
    assert(frames.dom().contains(key));
    assert(frames.dom().contains(frames.dom().choose()));
    assert(frames.remove(key) =~= Map::empty());
    assert(total(frames.remove(key), by_entries()) == 0);
    assert(total(frames.remove(key), by_declared()) == 0);
}

/// State after the first `count` datagrams, before the frame is complete.
proof fn lemma_partial_delivery(
    view: ReassemblerView,
    spec: FragmentSpec,
    frame: Seq<u8>,
    budget: usize,
    arrivals: Seq<Arrival>,
    order: Seq<int>,
    count: int,
) -> (indices: Seq<int>)
    requires
        view.config.is_valid(view.wire),
        view.frames == Map::<FrameKey, FrameView>::empty(),
        has_room_for(view, spec, frame, budget),
        is_delivery(view, spec, frame, budget, arrivals, order),
        1 <= count < order.len(),
    ensures
        ({
            let state = after(view, arrivals.take(count));
            let key = frame_key(spec);
            let cap = budget - view.wire.header_len;
            &&& state.config == view.config
            &&& state.wire == view.wire
            &&& state.active_codec_epoch == spec.codec_epoch
            &&& state.frames == only_frame(key, state.frames[key])
            &&& state.frames[key].first_seen_ns == arrivals[0].now_ns
            &&& state.frames[key].canonical == fragments(spec, view.wire, frame, cap)[order[0]].header
            &&& pieces(state.frames[key].fragments, indices, frame, cap)
            &&& state.frames[key].received() == payload_bytes(arrivals.take(count))
            &&& answer(view, arrivals.take(count)) == Ok::<OutcomeView, TransportError>(
                OutcomeView::Pending { key, received_bytes: state.frames[key].received() },
            )
        }),
        indices.len() == count,
        forall|k: int| indices.contains(k) <==> order.take(count).contains(k),
    decreases count,
{
    let cap = budget - view.wire.header_len;
    let key = frame_key(spec);
    let packets = fragments(spec, view.wire, frame, cap);
    let next = order[count - 1];
    let packet = packets[next];
    let fragment = piece(frame, cap, next);
    let arrival = arrivals[count - 1];
    law_fragments_fit(spec, view.wire, frame, budget, next);
    law_fragments_fit(spec, view.wire, frame, budget, order[0]);
    assert(packet.header == spec.header_at(
        view.wire,
        frame.len() as int,
        next * cap,
        chunk_end(next * cap, cap, frame.len() as int) - next * cap,
    ));
    assert(key_of(packet.header) == key);
    assert(arrivals.take(count).drop_last() =~= arrivals.take(count - 1));
    assert(arrivals.take(count).last() == arrival);
    assert(order.take(count).drop_last() =~= order.take(count - 1));
    assert forall|k: int| order.take(count).contains(k) <==> order.take(count - 1).contains(k)
        || k == next by {
        if order.take(count).contains(k) {
            let j = order.take(count).index_of(k);
            if j < count - 1 {
                assert(order.take(count - 1)[j] == k);
            }
        }
        if order.take(count - 1).contains(k) {
            let j = order.take(count - 1).index_of(k);
            assert(order.take(count)[j] == k);
        }
        assert(order.take(count)[count - 1] == next);
    }
    assert(!order.take(count - 1).contains(next)) by {
        if order.take(count - 1).contains(next) {
            let j = order.take(count - 1).index_of(next);
            assert(order[j] == order[count - 1]);
        }
    }
    let before = after(view, arrivals.take(count - 1));
    let current = before.expired(arrival.now_ns);
    if count == 1 {
        assert(arrivals.take(0) =~= Seq::empty());
        assert(payload_bytes(arrivals.take(0)) == 0);
        assert(before == view);
        assert(current.frames =~= Map::empty());
        let moved = current.at_epoch(spec.codec_epoch);
        assert(moved.frames =~= Map::empty());
        assert(moved.with_room(frame.len() as int) == moved);
        let fresh = FrameView::fresh(packet.header, arrival.now_ns);
        assert(pieces(fresh.fragments, Seq::empty(), frame, cap));
        let grown = lemma_next_piece(fresh.fragments, Seq::empty(), frame, cap, next);
        let longer = fresh.with_fragment(fragment, arrival.now_ns);
        let missing = order[1];
        assert(!grown.contains(missing)) by {
            assert(order[0] != order[1]);
            assert(!Seq::<int>::empty().contains(missing));
        }
        let _further = lemma_next_piece(longer.fragments, grown, frame, cap, missing);
        assert(moved.frames.insert(key, longer) =~= only_frame(key, longer));
        assert forall|k: int| grown.contains(k) <==> order.take(count).contains(k) by {
            assert(!order.take(0).contains(k));
            assert(!Seq::<int>::empty().contains(k));
        }
        grown
    } else {
        let indices = lemma_partial_delivery(
            view,
            spec,
            frame,
            budget,
            arrivals,
            order,
            count - 1,
        );
        let held = before.frames[key];
        assert(current.frames =~= before.frames);
        lemma_totals_of_one(key, held);
        let moved = current.at_epoch(spec.codec_epoch);
        assert(moved == current);
        assert(held.metadata_matches(packet.header));
        let grown = lemma_next_piece(held.fragments, indices, frame, cap, next);
        assert(!holds(held.fragments, fragment));
        let longer = held.with_fragment(fragment, arrival.now_ns);
        let missing = order[count];
        assert(!grown.contains(missing)) by {
            if order.take(count).contains(missing) {
                let j = order.take(count).index_of(missing);
                assert(order[j] == order[count]);
            }
        }
        let _further = lemma_next_piece(longer.fragments, grown, frame, cap, missing);
        assert(current.frames.insert(key, longer) =~= only_frame(key, longer));
        grown
    }
}

/// The packets of a frame, taken in any order by a reassembler with no frame
/// under construction, give exactly the frame back with the last of them, and
/// leave nothing behind: no frame, no bytes and no entries. Every earlier one is
/// answered as pending, with the payload bytes that came so far.
pub proof fn law_any_order_gives_the_frame_back(
    view: ReassemblerView,
    spec: FragmentSpec,
    frame: Seq<u8>,
    budget: usize,
    arrivals: Seq<Arrival>,
    order: Seq<int>,
)
    requires
        view.config.is_valid(view.wire),
        view.frames == Map::<FrameKey, FrameView>::empty(),
        has_room_for(view, spec, frame, budget),
        is_delivery(view, spec, frame, budget, arrivals, order),
    ensures
        answer(view, arrivals) == Ok::<OutcomeView, TransportError>(
            OutcomeView::Complete {
                header: fragments(
                    spec,
                    view.wire,
                    frame,
                    budget - view.wire.header_len,
                )[order[0]].header,
                bytes: frame,
                first_fragment_ns: arrivals[0].now_ns,
                completed_ns: arrivals.last().now_ns,
            },
        ),
        after(view, arrivals).frames == Map::<FrameKey, FrameView>::empty(),
        after(view, arrivals).frames.dom().len() == 0,
        after(view, arrivals).buffered() == 0,
        after(view, arrivals).reserved() == 0,
        after(view, arrivals).entries() == 0,
        forall|i: int|
            1 <= i < arrivals.len() ==> (#[trigger] answer(view, arrivals.take(i))) == Ok::<
                OutcomeView,
                TransportError,
            >(
                OutcomeView::Pending {
                    key: frame_key(spec),
                    received_bytes: payload_bytes(arrivals.take(i)),
                },
            ),
{
    let cap = budget - view.wire.header_len;
    let key = frame_key(spec);
    let packets = fragments(spec, view.wire, frame, cap);
    let count = packets.len() as int;
    assert(count >= 1) by {
        if count == 0 {
            law_fragments_join_to_the_frame(spec, view.wire, frame, budget);
            assert(packets =~= Seq::empty());
        }
    }
    assert forall|i: int| 1 <= i < arrivals.len() implies (#[trigger] answer(
        view,
        arrivals.take(i),
    )) == Ok::<OutcomeView, TransportError>(
        OutcomeView::Pending { key, received_bytes: payload_bytes(arrivals.take(i)) },
    ) by {
        let _indices = lemma_partial_delivery(view, spec, frame, budget, arrivals, order, i);
    }
    let next = order[count - 1];
    let packet = packets[next];
    let fragment = piece(frame, cap, next);
    let arrival = arrivals[count - 1];
    law_fragments_fit(spec, view.wire, frame, budget, next);
    law_fragments_fit(spec, view.wire, frame, budget, order[0]);
    assert(key_of(packet.header) == key);
    let before = after(view, arrivals.drop_last());
    let current = before.expired(arrival.now_ns);
    if count == 1 {
        assert(arrivals.drop_last() =~= Seq::empty());
        assert(current.frames =~= Map::empty());
        let moved = current.at_epoch(spec.codec_epoch);
        assert(moved.frames =~= Map::empty());
        assert(moved.with_room(frame.len() as int) == moved);
        let fresh = FrameView::fresh(packet.header, arrival.now_ns);
        let grown = lemma_next_piece(fresh.fragments, Seq::empty(), frame, cap, next);
        let longer = fresh.with_fragment(fragment, arrival.now_ns);
        lemma_all_pieces(spec, view.wire, longer.fragments, grown, frame, budget);
        assert(moved.frames.remove(key) =~= Map::empty());
    } else {
        let indices = lemma_partial_delivery(
            view,
            spec,
            frame,
            budget,
            arrivals,
            order,
            count - 1,
        );
        assert(arrivals.take(count - 1) =~= arrivals.drop_last());
        let held = before.frames[key];
        assert(current.frames =~= before.frames);
        lemma_totals_of_one(key, held);
        assert(held.metadata_matches(packet.header));
        assert(!indices.contains(next)) by {
            if order.take(count - 1).contains(next) {
                let j = order.take(count - 1).index_of(next);
                assert(order[j] == order[count - 1]);
            }
        }
        let grown = lemma_next_piece(held.fragments, indices, frame, cap, next);
        assert(!holds(held.fragments, fragment));
        let longer = held.with_fragment(fragment, arrival.now_ns);
        lemma_all_pieces(spec, view.wire, longer.fragments, grown, frame, budget);
        assert(current.frames.remove(key) =~= Map::empty());
    }
}

} // verus!
