//! What the simulated link does to the packets that it carries.

use crate::counter::raised;
use crate::error::TransportError;
use crate::simulator::{
    arrived_bytes, by_delivery, due_count, due_first, inserted, law_sorting_is_a_permutation,
    lemma_by_delivery, lemma_due_count_bound, on_time, queue_bytes, rolled, scrambled, seeded,
    DeliveredView, NetworkProfile, NetworkStats, QueuedView, SimPacketView, SimulatorView, SubmitOutcome,
};
use crate::simulator_laws::{called, is_run, LinkAnswer, LinkCall};
use vstd::prelude::*;

verus! {

/// A profile is taken exactly if its four probabilities are at most a million
/// in a million, and its bandwidth and queue limits are not zero.
pub proof fn law_profiles_in_range_are_taken(profile: NetworkProfile)
    ensures
        profile.is_valid() <==> (profile.loss_per_million <= 1_000_000
            && profile.duplicate_per_million <= 1_000_000 && profile.reorder_per_million
            <= 1_000_000 && profile.corrupt_per_million <= 1_000_000 && profile.bandwidth_bps >= 1
            && profile.max_queued_packets >= 1 && profile.max_queued_bytes >= 1
            && profile.max_packet_bytes >= 1),
{
}

/// A packet is refused exactly if it is empty or longer than the profile allows,
/// which is answered with its length, or if its deadline has come when it is
/// sent. A refused packet changes nothing.
pub proof fn law_impossible_packets_are_refused(view: SimulatorView, packet: SimPacketView)
    requires
        packet.bytes.len() <= usize::MAX,
    ensures
        ({
            let step = view.submitting(packet);
            let bad_size = packet.bytes.len() == 0 || packet.bytes.len()
                > view.profile.max_packet_bytes;
            let too_late = packet.send_ns >= packet.deadline_ns;
            &&& bad_size <==> (step.1 matches Err(TransportError::PacketSize(_)))
            &&& step.1 matches Err(TransportError::PacketSize(len)) ==> len == packet.bytes.len()
            &&& !bad_size && too_late <==> step.1 == Err::<SubmitOutcome, TransportError>(
                TransportError::InvalidDeadline,
            )
            &&& bad_size || too_late ==> step.0 == view
        }),
{
}

/// An event happens for as many of a million numbers as its probability says,
/// so one of a higher probability happens whenever one of a lower one does. One
/// of probability zero never happens and draws no number, and one of a
/// million in a million always happens.
pub proof fn law_coins_follow_their_probability(state: u64, low: u32, high: u32)
    ensures
        low <= high && rolled(state, low).1 ==> rolled(state, high).1,
        rolled(state, 0) == (state, false),
        high >= 1_000_000 ==> rolled(state, high).1,
        low > 0 ==> rolled(state, low).0 == scrambled(state),
        low > 0 ==> (rolled(state, low).1 <==> scrambled(state) % 1_000_000 + 1 <= low),
        low > 0 && high > 0 ==> rolled(state, low).0 == rolled(state, high).0,
{
}

/// The generator adds to its state, bit by bit, 8192 times itself, then a 128th
/// of that, and then 131072 times that.
pub proof fn law_generator_mixes_in_three_steps(state: u64, first: u64, second: u64)
    requires
        first == state ^ ((state % 0x8_0000_0000_0000) * 8_192) as u64,
        second == first ^ (first / 128),
    ensures
        scrambled(state) == second ^ ((second % 0x8000_0000_0000) * 131_072) as u64,
{
    assert((state << 13) == ((state % 0x8_0000_0000_0000) * 8_192) as u64) by (bit_vector);
    assert((first >> 7) == first / 128) by (bit_vector);
    assert((second << 17) == ((second % 0x8000_0000_0000) * 131_072) as u64) by (bit_vector);
}

/// The generator never gets stuck: it mixes its state linearly over the bits,
/// and only a state of zero gives zero, which no seed starts it in.
pub proof fn law_generator_never_gets_stuck(left: u64, right: u64, seed: u64)
    ensures
        scrambled(left ^ right) == scrambled(left) ^ scrambled(right),
        scrambled(left) == 0 ==> left == 0,
        seeded(seed) != 0,
        seed != 0 ==> seeded(seed) == seed,
{
    assert(({
        let state = left ^ right;
        let first = state ^ (state << 13);
        let second = first ^ (first >> 7);
        second ^ (second << 17)
    }) == ({
        let first = left ^ (left << 13);
        let second = first ^ (first >> 7);
        second ^ (second << 17)
    }) ^ ({
        let first = right ^ (right << 13);
        let second = first ^ (first >> 7);
        second ^ (second << 17)
    })) by (bit_vector);
    assert(({
        let first = left ^ (left << 13);
        let second = first ^ (first >> 7);
        second ^ (second << 17)
    }) == 0 ==> left == 0) by (bit_vector);
}

// ---------------------------------------------------------------------------
// Loss, copies and room
// ---------------------------------------------------------------------------
/// How often a packet that the link accepts for transport is queued: not at
/// all, once or twice. Without a chance of loss none is lost, and with
/// certainty every one is; without a chance of duplication none is queued
/// twice, and with certainty every one is.
pub proof fn law_loss_and_duplication_follow_the_profile(
    view: SimulatorView,
    packet: SimPacketView,
)
    requires
        0 < packet.bytes.len() <= view.profile.max_packet_bytes,
        packet.send_ns < packet.deadline_ns,
        packet.bytes.len() * 2 <= usize::MAX,
    ensures
        ({
            let answer = view.submitting(packet).1;
            let lost = answer == Ok::<SubmitOutcome, TransportError>(SubmitOutcome::SimulatedLoss);
            let full = answer == Err::<SubmitOutcome, TransportError>(
                TransportError::NetworkQueueFull,
            );
            &&& lost || full || (answer matches Ok(SubmitOutcome::Queued { copies }) && 1 <= copies
                <= 2)
            &&& view.profile.loss_per_million == 0 ==> !lost
            &&& view.profile.loss_per_million >= 1_000_000 ==> lost
            &&& view.profile.duplicate_per_million == 0 ==> (
            answer matches Ok(SubmitOutcome::Queued { copies }) ==> copies == 1)
            &&& view.profile.duplicate_per_million >= 1_000_000 ==> (
            answer matches Ok(SubmitOutcome::Queued { copies }) ==> copies == 2)
        }),
{
    let size = packet.bytes.len();
    assert(size * 1 == size && size * 2 == size + size);
}

/// A packet that is not lost is queued exactly if all its copies fit both
/// limits of the queue; otherwise the queue stays as it is.
pub proof fn law_full_queue_drops(view: SimulatorView, packet: SimPacketView)
    requires
        0 < packet.bytes.len() <= view.profile.max_packet_bytes,
        packet.send_ns < packet.deadline_ns,
        packet.bytes.len() * 2 <= usize::MAX,
    ensures
        ({
            let step = view.submitting(packet);
            let size = packet.bytes.len();
            let held = queue_bytes(view.queue);
            let fits_once = view.queue.len() + 1 <= view.profile.max_queued_packets && held + size
                <= view.profile.max_queued_bytes;
            let fits_twice = view.queue.len() + 2 <= view.profile.max_queued_packets && held + size
                + size <= view.profile.max_queued_bytes;
            &&& step.1 matches Ok(SubmitOutcome::Queued { copies }) ==> {
                &&& step.0.queue.len() == view.queue.len() + copies
                &&& step.0.queue.take(view.queue.len() as int) == view.queue
                &&& copies == 1 ==> fits_once
                &&& copies == 2 ==> fits_twice
            }
            &&& step.1 == Err::<SubmitOutcome, TransportError>(TransportError::NetworkQueueFull)
                ==> step.0.queue == view.queue && !fits_twice && (
            view.profile.duplicate_per_million == 0 ==> !fits_once)
            &&& step.1 == Ok::<SubmitOutcome, TransportError>(SubmitOutcome::SimulatedLoss)
                ==> step.0.queue == view.queue
        }),
{
    let size = packet.bytes.len();
    assert(size * 1 == size && size * 2 == size + size);
    let step = view.submitting(packet);
    if let Ok(SubmitOutcome::Queued { copies }) = step.1 {
        lemma_copies_come_last(step.0, view, packet);
    }
}

proof fn lemma_copies_come_last(after: SimulatorView, view: SimulatorView, packet: SimPacketView)
    requires
        after == view.submitting(packet).0,
        view.submitting(packet).1 matches Ok(SubmitOutcome::Queued { .. }),
    ensures
        view.submitting(packet).1 matches Ok(SubmitOutcome::Queued { copies })
            && after.queue.len() == view.queue.len() + copies && after.queue.take(
            view.queue.len() as int,
        ) == view.queue,
{
    let counted = SimulatorView {
        stats: crate::simulator::NetworkStats {
            submitted: crate::counter::raised(view.stats.submitted, 1),
            ..view.stats
        },
        ..view
    };
    let kept = counted.tossing(view.profile.loss_per_million).0;
    let toss = kept.tossing(view.profile.duplicate_per_million);
    let started = if toss.1 {
        SimulatorView {
            stats: crate::simulator::NetworkStats {
                duplicated: crate::counter::raised(kept.stats.duplicated, 1),
                ..kept.stats
            },
            ..toss.0
        }
    } else {
        toss.0
    };
    let copies: int = if toss.1 {
        2
    } else {
        1
    };
    assert(after == started.queueing_copies(packet, copies));
    let once = started.queueing(packet, 0);
    assert(started.queueing_copies(packet, 0) == started);
    assert(started.queueing_copies(packet, 1) == once);
    if toss.1 {
        assert(started.queueing_copies(packet, 2) == once.queueing(packet, 1));
    }
    assert(after.queue.take(view.queue.len() as int) =~= view.queue);
}

// ---------------------------------------------------------------------------
// Time on the wire
// ---------------------------------------------------------------------------
/// `busy` nanoseconds are the fewest in which the wire carries `len` bytes.
pub open spec fn is_wire_time(busy: int, len: int, bandwidth_bps: int) -> bool {
    busy * bandwidth_bps >= len * 8_000_000_000 && (busy - 1) * bandwidth_bps < len * 8_000_000_000
}

proof fn lemma_wire_time(len: int, bandwidth: int)
    requires
        0 <= len,
        0 < bandwidth,
    ensures
        is_wire_time((len * 8_000_000_000 + bandwidth - 1) / bandwidth, len, bandwidth),
{
    let bits = len * 8_000_000_000;
    let busy = (bits + bandwidth - 1) / bandwidth;
    vstd::arithmetic::div_mod::lemma_fundamental_div_mod(bits + bandwidth - 1, bandwidth);
    vstd::arithmetic::div_mod::lemma_mod_bound(bits + bandwidth - 1, bandwidth);
    assert(busy * bandwidth == bandwidth * busy) by (nonlinear_arith);
    assert((busy - 1) * bandwidth == busy * bandwidth - bandwidth) by (nonlinear_arith);
}

/// The packet that a step queued.
pub open spec fn queued_by(view: SimulatorView, packet: SimPacketView, copy_index: int) -> QueuedView {
    view.queueing(packet, copy_index).queue.last()
}

/// A packet waits until the wire is free, then occupies it for as long as its
/// bytes take at the profile's bandwidth. It is delivered the base delay after
/// it has left the wire, and a second copy 50 microseconds later still, give or
/// take the jitter. A packet that is held back comes later by four times the
/// jitter, or by a nanosecond where there is none.
pub proof fn law_packets_take_turns_on_the_wire(
    view: SimulatorView,
    packet: SimPacketView,
    copy_index: int,
)
    requires
        view.profile.bandwidth_bps > 0,
        0 <= copy_index <= 1,
        view.queueing(packet, copy_index).next_wire_free_ns < u64::MAX,
        view.queueing(packet, copy_index).next_wire_free_ns + view.profile.base_delay_ns + 50_000
            + 5 * view.profile.jitter_ns < u64::MAX,
    ensures
        ({
            let after = view.queueing(packet, copy_index);
            let queued = queued_by(view, packet, copy_index);
            let start = if packet.send_ns > view.next_wire_free_ns {
                packet.send_ns
            } else {
                view.next_wire_free_ns
            };
            let arrival = after.next_wire_free_ns + view.profile.base_delay_ns + copy_index
                * 50_000;
            let jitter = view.profile.jitter_ns;
            let held = if jitter == 0 {
                1
            } else {
                4 * jitter
            };
            &&& after.next_wire_free_ns >= start
            &&& is_wire_time(
                after.next_wire_free_ns - start,
                packet.bytes.len() as int,
                view.profile.bandwidth_bps as int,
            )
            &&& {
                ||| (arrival - jitter <= queued.delivery_ns || queued.delivery_ns == 0)
                    && queued.delivery_ns <= arrival + jitter && after.stats.reordered
                    == view.stats.reordered
                ||| arrival - jitter + held <= queued.delivery_ns <= arrival + jitter + held
                    && view.profile.reorder_per_million > 0
                ||| arrival < jitter && queued.delivery_ns == held
                    && view.profile.reorder_per_million > 0
            }
            &&& view.profile.jitter_ns == 0 && view.profile.reorder_per_million == 0
                ==> queued.delivery_ns == arrival
            &&& view.profile.reorder_per_million >= 1_000_000 && jitter == 0
                ==> queued.delivery_ns == arrival + 1
        }),
{
    let bandwidth = view.profile.bandwidth_bps as int;
    let copied = view.corrupting(SimulatorView::copy_of(packet, copy_index));
    assert(copied.1.bytes.len() == packet.bytes.len());
    assert(copied.0.next_wire_free_ns == view.next_wire_free_ns);
    let reordered = copied.0.reordering();
    assert(reordered.0.next_wire_free_ns == view.next_wire_free_ns);
    lemma_wire_time(packet.bytes.len() as int, bandwidth);
    let range = 2 * view.profile.jitter_ns + 1;
    let drawn = scrambled(reordered.0.rng) as int;
    assert(0 <= drawn % range < range);
}

/// Of two packets queued one after the other without jitter or reordering, the
/// second is delivered no earlier than its own time on the wire after the
/// first.
pub proof fn law_second_packet_waits_for_the_first(
    view: SimulatorView,
    first: SimPacketView,
    second: SimPacketView,
)
    requires
        view.profile.bandwidth_bps > 0,
        view.profile.jitter_ns == 0,
        view.profile.reorder_per_million == 0,
        view.queueing(first, 0).queueing(second, 0).next_wire_free_ns < u64::MAX,
        view.queueing(first, 0).queueing(second, 0).next_wire_free_ns + view.profile.base_delay_ns
            + 50_000 < u64::MAX,
    ensures
        ({
            let between = view.queueing(first, 0);
            let early = queued_by(view, first, 0).delivery_ns;
            let late = queued_by(between, second, 0).delivery_ns;
            &&& late >= early
            &&& (late - early) * view.profile.bandwidth_bps >= second.bytes.len() * 8_000_000_000
        }),
{
    let between = view.queueing(first, 0);
    let after = between.queueing(second, 0);
    lemma_wire_advances(between, second, 0);
    assert(between.profile == view.profile);
    law_packets_take_turns_on_the_wire(view, first, 0);
    law_packets_take_turns_on_the_wire(between, second, 0);
    let start = if second.send_ns > between.next_wire_free_ns {
        second.send_ns as int
    } else {
        between.next_wire_free_ns as int
    };
    let early = queued_by(view, first, 0).delivery_ns as int;
    let late = queued_by(between, second, 0).delivery_ns as int;
    let bandwidth = view.profile.bandwidth_bps as int;
    assert(late - early >= after.next_wire_free_ns - start);
    assert((late - early) * bandwidth >= (after.next_wire_free_ns - start) * bandwidth)
        by (nonlinear_arith)
        requires
            late - early >= after.next_wire_free_ns - start,
            bandwidth > 0,
    ;
}

proof fn lemma_wire_advances(view: SimulatorView, packet: SimPacketView, copy_index: int)
    requires
        view.profile.bandwidth_bps > 0,
    ensures
        ({
            let after = view.queueing(packet, copy_index);
            &&& after.profile == view.profile
            &&& after.next_wire_free_ns >= view.next_wire_free_ns
            &&& after.next_wire_free_ns < u64::MAX ==> (after.next_wire_free_ns
                - view.next_wire_free_ns) * view.profile.bandwidth_bps >= packet.bytes.len()
                * 8_000_000_000
        }),
{
    let bandwidth = view.profile.bandwidth_bps as int;
    let copied = view.corrupting(SimulatorView::copy_of(packet, copy_index));
    assert(copied.1.bytes.len() == packet.bytes.len());
    assert(copied.0.next_wire_free_ns == view.next_wire_free_ns);
    let len = packet.bytes.len() as int;
    lemma_wire_time(len, bandwidth);
    let busy = (len * 8_000_000_000 + bandwidth - 1) / bandwidth;
    let after = view.queueing(packet, copy_index);
    assert(busy >= 0) by {
        vstd::arithmetic::div_mod::lemma_div_pos_is_pos(
            len * 8_000_000_000 + bandwidth - 1,
            bandwidth,
        );
    }
    if after.next_wire_free_ns < u64::MAX {
        let moved = after.next_wire_free_ns - view.next_wire_free_ns;
        assert(moved >= busy);
        assert(moved * bandwidth >= busy * bandwidth) by (nonlinear_arith)
            requires
                moved >= busy,
                bandwidth > 0,
        ;
    }
}

/// How many bytes the answers say were queued, copies included.
pub open spec fn bytes_queued(calls: Seq<LinkCall>, answers: Seq<LinkAnswer>) -> nat
    decreases calls.len(),
{
    if calls.len() == 0 || answers.len() != calls.len() {
        0
    } else {
        bytes_queued(calls.drop_last(), answers.drop_last()) + match (calls.last(), answers.last()) {
            (
                LinkCall::Submit(packet),
                LinkAnswer::Submitted(Ok(SubmitOutcome::Queued { copies })),
            ) => packet.bytes.len() * copies as nat,
            _ => 0,
        }
    }
}

/// No burst passes faster than the bandwidth: the wire is busy at least as long
/// as all queued bytes take on it.
pub proof fn law_bandwidth_is_never_exceeded(
    states: Seq<SimulatorView>,
    calls: Seq<LinkCall>,
    answers: Seq<LinkAnswer>,
)
    requires
        is_run(states, calls, answers),
        states[0].profile.bandwidth_bps > 0,
        states.last().next_wire_free_ns < u64::MAX,
    ensures
        states.last().next_wire_free_ns >= states[0].next_wire_free_ns,
        states.last().profile == states[0].profile,
        (states.last().next_wire_free_ns - states[0].next_wire_free_ns)
            * states[0].profile.bandwidth_bps >= bytes_queued(calls, answers) * 8_000_000_000,
    decreases calls.len(),
{
    let bandwidth = states[0].profile.bandwidth_bps as int;
    if calls.len() > 0 {
        let front = states.drop_last();
        let earlier = calls.drop_last();
        let replies = answers.drop_last();
        let last = calls.len() - 1;
        let before = states[last];
        assert((states[last + 1], answers[last]) == called(before, calls[last]));
        assert forall|i: int| 0 <= i < earlier.len() implies (front[i + 1], #[trigger] replies[i])
            == called(front[i], earlier[i]) by {
            assert((states[i + 1], answers[i]) == called(states[i], calls[i]));
        }
        assert(front.last() == before);
        lemma_profile_stays(states, calls, answers, last);
        lemma_step_advances(before, calls[last]);
        law_bandwidth_is_never_exceeded(front, earlier, replies);
        let total = states.last().next_wire_free_ns - states[0].next_wire_free_ns;
        let part = before.next_wire_free_ns - states[0].next_wire_free_ns;
        assert(total * bandwidth == part * bandwidth + (states.last().next_wire_free_ns
            - before.next_wire_free_ns) * bandwidth) by (nonlinear_arith)
            requires
                total == part + (states.last().next_wire_free_ns - before.next_wire_free_ns),
        ;
    }
}

proof fn lemma_copies_keep_the_profile(view: SimulatorView, packet: SimPacketView, copies: int)
    ensures
        view.queueing_copies(packet, copies).profile == view.profile,
    decreases copies,
{
    if copies > 0 {
        lemma_copies_keep_the_profile(view, packet, copies - 1);
    }
}

proof fn lemma_profile_stays(
    states: Seq<SimulatorView>,
    calls: Seq<LinkCall>,
    answers: Seq<LinkAnswer>,
    at: int,
)
    requires
        is_run(states, calls, answers),
        0 <= at <= calls.len(),
    ensures
        states[at].profile == states[0].profile,
    decreases at,
{
    if at > 0 {
        lemma_profile_stays(states, calls, answers, at - 1);
        let before = states[at - 1];
        assert((states[at], answers[at - 1]) == called(before, calls[at - 1]));
        if let LinkCall::Submit(packet) = calls[at - 1] {
            let counted = SimulatorView {
                stats: crate::simulator::NetworkStats {
                    submitted: crate::counter::raised(before.stats.submitted, 1),
                    ..before.stats
                },
                ..before
            };
            let kept = counted.tossing(before.profile.loss_per_million).0;
            let toss = kept.tossing(before.profile.duplicate_per_million);
            let doubled = SimulatorView {
                stats: crate::simulator::NetworkStats {
                    duplicated: crate::counter::raised(kept.stats.duplicated, 1),
                    ..kept.stats
                },
                ..toss.0
            };
            lemma_copies_keep_the_profile(toss.0, packet, 1);
            lemma_copies_keep_the_profile(doubled, packet, 2);
        }
    }
}

proof fn lemma_tosses_keep_the_wire(view: SimulatorView, packet: SimPacketView)
    ensures
        ({
            let step = view.submitting(packet);
            step.1 !is Ok || (step.1 matches Ok(SubmitOutcome::SimulatedLoss))
                ==> step.0.next_wire_free_ns == view.next_wire_free_ns && step.0.profile
                == view.profile
        }),
{
}

proof fn lemma_step_advances(before: SimulatorView, call: LinkCall)
    requires
        before.profile.bandwidth_bps > 0,
    ensures
        ({
            let (after, answer) = called(before, call);
            &&& after.profile == before.profile
            &&& after.next_wire_free_ns >= before.next_wire_free_ns
            &&& after.next_wire_free_ns < u64::MAX ==> (after.next_wire_free_ns
                - before.next_wire_free_ns) * before.profile.bandwidth_bps >= (match (call, answer) {
                (
                    LinkCall::Submit(packet),
                    LinkAnswer::Submitted(Ok(SubmitOutcome::Queued { copies })),
                ) => packet.bytes.len() * copies as nat,
                _ => 0,
            }) * 8_000_000_000
        }),
{
    let (after, answer) = called(before, call);
    let bandwidth = before.profile.bandwidth_bps as int;
    assert(0 * bandwidth == 0);
    if let LinkCall::Submit(packet) = call {
        lemma_tosses_keep_the_wire(before, packet);
        if let Ok(SubmitOutcome::Queued { copies }) = before.submitting(packet).1 {
            let counted = SimulatorView {
                stats: crate::simulator::NetworkStats {
                    submitted: crate::counter::raised(before.stats.submitted, 1),
                    ..before.stats
                },
                ..before
            };
            let kept = counted.tossing(before.profile.loss_per_million).0;
            let toss = kept.tossing(before.profile.duplicate_per_million);
            let started = if toss.1 {
                SimulatorView {
                    stats: crate::simulator::NetworkStats {
                        duplicated: crate::counter::raised(kept.stats.duplicated, 1),
                        ..kept.stats
                    },
                    ..toss.0
                }
            } else {
                toss.0
            };
            let once = started.queueing(packet, 0);
            assert(started.queueing_copies(packet, 0) == started);
            assert(started.queueing_copies(packet, 1) == once);
            lemma_wire_advances(started, packet, 0);
            let len = packet.bytes.len() as int;
            if toss.1 {
                let twice = once.queueing(packet, 1);
                assert(started.queueing_copies(packet, 2) == twice);
                lemma_wire_advances(once, packet, 1);
                let a = once.next_wire_free_ns - before.next_wire_free_ns;
                let b = twice.next_wire_free_ns - once.next_wire_free_ns;
                assert((a + b) * bandwidth == a * bandwidth + b * bandwidth) by (nonlinear_arith);
                assert(len * 2 == len + len);
            } else {
                assert(len * 1 == len);
            }
        }
    }
}

// ---------------------------------------------------------------------------
// What arrives
// ---------------------------------------------------------------------------
/// A queued copy carries the packet as it was sent. Without a chance of
/// corruption it has the very bytes; otherwise at most one byte differs, and in
/// that byte one bit. A second copy has another identity, with the top bit of
/// the number turned over.
pub proof fn law_copies_carry_the_packet(
    view: SimulatorView,
    packet: SimPacketView,
    copy_index: int,
)
    requires
        0 <= copy_index <= 1,
    ensures
        ({
            let copy = queued_by(view, packet, copy_index).packet;
            let after = view.queueing(packet, copy_index);
            &&& copy.lane == packet.lane
            &&& copy.send_ns == packet.send_ns
            &&& copy.deadline_ns == packet.deadline_ns
            &&& copy.bytes.len() == packet.bytes.len()
            &&& copy_index == 0 ==> copy.id == packet.id
            &&& copy_index == 1 ==> (copy.id == packet.id + 0x8000_0000_0000_0000 || packet.id
                == copy.id + 0x8000_0000_0000_0000)
            &&& view.profile.corrupt_per_million == 0 ==> copy.bytes == packet.bytes
                && after.stats.corrupted == view.stats.corrupted
            &&& view.profile.corrupt_per_million >= 1_000_000 && packet.bytes.len() > 0
                ==> copy.bytes != packet.bytes
            &&& copy.bytes != packet.bytes ==> exists|at: int, bit: u32|
                0 <= at < packet.bytes.len() && bit < 8 && #[trigger] flipped(
                    packet.bytes,
                    at,
                    bit,
                ) == copy.bytes
            &&& copy.bytes != packet.bytes && view.stats.corrupted < u64::MAX
                ==> after.stats.corrupted == view.stats.corrupted + 1
            &&& after.queue.drop_last() == view.queue
            &&& view.insertion_order < u64::MAX ==> after.insertion_order == view.insertion_order
                + 1
            &&& after.queue.last().insertion_order == after.insertion_order
        }),
{
    let copied = SimulatorView::copy_of(packet, copy_index);
    let step = view.corrupting(copied);
    let after = view.queueing(packet, copy_index);
    assert(after.queue.drop_last() =~= view.queue);
    let toss = view.tossing(view.profile.corrupt_per_million);
    if toss.1 && packet.bytes.len() > 0 {
        let place = scrambled(toss.0.rng);
        let turn = scrambled(place);
        let index = (place as usize) as int % packet.bytes.len() as int;
        assert(0 <= index < packet.bytes.len());
        let bit = (turn % 8) as u32;
        let byte = packet.bytes[index];
        assert(byte ^ (1u8 << bit) != byte) by (bit_vector)
            requires
                bit < 8,
        ;
        assert(step.1.bytes == flipped(packet.bytes, index, bit));
        assert(step.1.bytes[index] != packet.bytes[index]);
    }
}

/// The bytes with one bit of one of them turned over.
pub open spec fn flipped(bytes: Seq<u8>, at: int, bit: u32) -> Seq<u8> {
    bytes.update(at, bytes[at] ^ (1u8 << bit))
}

/// How many queued packets are due, and were due before their deadline.
pub open spec fn ready(queue: Seq<QueuedView>, now_ns: u64) -> nat
    decreases queue.len(),
{
    if queue.len() == 0 {
        0
    } else {
        ready(queue.skip(1), now_ns) + (if queue[0].delivery_ns <= now_ns
            && queue[0].delivery_ns <= queue[0].packet.deadline_ns {
            1nat
        } else {
            0nat
        })
    }
}

/// How many queued packets are due, but only after their deadline.
pub open spec fn overdue(queue: Seq<QueuedView>, now_ns: u64) -> nat
    decreases queue.len(),
{
    if queue.len() == 0 {
        0
    } else {
        overdue(queue.skip(1), now_ns) + (if queue[0].delivery_ns <= now_ns
            && queue[0].delivery_ns > queue[0].packet.deadline_ns {
            1nat
        } else {
            0nat
        })
    }
}

spec fn one_ready(packet: QueuedView, now_ns: u64) -> nat {
    if packet.delivery_ns <= now_ns && packet.delivery_ns <= packet.packet.deadline_ns {
        1
    } else {
        0
    }
}

spec fn one_overdue(packet: QueuedView, now_ns: u64) -> nat {
    if packet.delivery_ns <= now_ns && packet.delivery_ns > packet.packet.deadline_ns {
        1
    } else {
        0
    }
}

proof fn lemma_inserted_counts(packet: QueuedView, sorted: Seq<QueuedView>, now_ns: u64)
    ensures
        ready(inserted(packet, sorted), now_ns) == one_ready(packet, now_ns) + ready(
            sorted,
            now_ns,
        ),
        overdue(inserted(packet, sorted), now_ns) == one_overdue(packet, now_ns) + overdue(
            sorted,
            now_ns,
        ),
    decreases sorted.len(),
{
    let result = inserted(packet, sorted);
    if sorted.len() == 0 || due_first(packet, sorted[0]) {
        assert(result.skip(1) =~= sorted);
    } else {
        lemma_inserted_counts(packet, sorted.skip(1), now_ns);
        assert(result.skip(1) =~= inserted(packet, sorted.skip(1)));
    }
}

proof fn lemma_sorted_counts(queue: Seq<QueuedView>, now_ns: u64)
    ensures
        ready(by_delivery(queue), now_ns) == ready(queue, now_ns),
        overdue(by_delivery(queue), now_ns) == overdue(queue, now_ns),
    decreases queue.len(),
{
    if queue.len() > 0 {
        lemma_sorted_counts(queue.skip(1), now_ns);
        lemma_inserted_counts(queue[0], by_delivery(queue.skip(1)), now_ns);
    }
}

proof fn lemma_due_counts(sorted: Seq<QueuedView>, now_ns: u64)
    requires
        crate::simulator::is_sorted(sorted),
    ensures
        ({
            let due = sorted.take(due_count(sorted, now_ns) as int);
            &&& on_time(due).len() == ready(sorted, now_ns)
            &&& due.len() - on_time(due).len() == overdue(sorted, now_ns)
        }),
    decreases sorted.len(),
{
    let count = due_count(sorted, now_ns) as int;
    lemma_due_count_bound(sorted, now_ns);
    let due = sorted.take(count);
    if sorted.len() == 0 {
        assert(due =~= Seq::empty());
    } else {
        let rest = sorted.skip(1);
        assert forall|i: int, j: int| 0 <= i < j < rest.len() implies due_first(
            #[trigger] rest[i],
            #[trigger] rest[j],
        ) by {
            assert(rest[i] == sorted[i + 1] && rest[j] == sorted[j + 1]);
        }
        lemma_due_counts(rest, now_ns);
        if sorted[0].delivery_ns <= now_ns {
            assert(due.skip(1) =~= rest.take(due_count(rest, now_ns) as int));
        } else {
            assert(due =~= Seq::empty());
            if rest.len() > 0 {
                assert(due_first(sorted[0], sorted[1]));
                assert(rest[0] == sorted[1]);
            }
            assert(rest.take(due_count(rest, now_ns) as int) =~= Seq::empty());
        }
    }
}

/// A poll hands out every packet that is due by now and was due before its
/// deadline, drops and counts every other one that is due, and keeps the rest.
pub proof fn law_poll_hands_out_what_is_due(view: SimulatorView, now_ns: u64)
    ensures
        ({
            let (after, delivered) = view.polling(now_ns);
            &&& delivered.len() == ready(view.queue, now_ns)
            &&& after.queue.len() + ready(view.queue, now_ns) + overdue(view.queue, now_ns)
                == view.queue.len()
            &&& view.stats.delivered + delivered.len() <= u64::MAX ==> after.stats.delivered
                == view.stats.delivered + delivered.len()
            &&& view.stats.expired + overdue(view.queue, now_ns) <= u64::MAX
                ==> after.stats.expired == view.stats.expired + overdue(view.queue, now_ns)
            &&& forall|i: int|
                0 <= i < delivered.len() ==> exists|j: int|
                    0 <= j < view.queue.len() && (#[trigger] view.queue[j]).packet == (
                    #[trigger] delivered[i]).packet && view.queue[j].delivery_ns
                        == delivered[i].delivery_ns
            &&& after.rng == view.rng
            &&& after.profile == view.profile
            &&& after.next_wire_free_ns == view.next_wire_free_ns
            &&& after.insertion_order == view.insertion_order
            &&& after.stats.submitted == view.stats.submitted
            &&& after.stats.lost == view.stats.lost
        }),
{
    broadcast use vstd::seq_lib::group_to_multiset_ensures;

    let sorted = by_delivery(view.queue);
    law_sorting_is_a_permutation(view.queue);
    lemma_by_delivery(view.queue);
    lemma_sorted_counts(view.queue, now_ns);
    lemma_due_counts(sorted, now_ns);
    lemma_due_count_bound(sorted, now_ns);
    let due = view.due(now_ns);
    let delivered = view.polling(now_ns).1;
    assert forall|i: int| 0 <= i < delivered.len() implies exists|j: int|
        0 <= j < view.queue.len() && (#[trigger] view.queue[j]).packet == (
        #[trigger] delivered[i]).packet && view.queue[j].delivery_ns
            == delivered[i].delivery_ns by {
        let k = lemma_on_time_source(due, i);
        assert(sorted[k] == due[k]);
        assert(sorted.contains(sorted[k]));
        assert(sorted.to_multiset().count(sorted[k]) > 0);
        assert(view.queue.contains(sorted[k]));
        let j = view.queue.index_of(sorted[k]);
        assert(view.queue[j] == due[k]);
    }
}

proof fn lemma_on_time_source(due: Seq<QueuedView>, at: int) -> (source: int)
    requires
        0 <= at < on_time(due).len(),
    ensures
        0 <= source < due.len(),
        due[source].packet == on_time(due)[at].packet,
        due[source].delivery_ns == on_time(due)[at].delivery_ns,
    decreases due.len(),
{
    let rest = due.skip(1);
    if due[0].delivery_ns > due[0].packet.deadline_ns {
        let source = lemma_on_time_source(rest, at);
        assert(rest[source] == due[source + 1]);
        source + 1
    } else if at == 0 {
        0
    } else {
        assert(on_time(due)[at] == on_time(rest)[at - 1]);
        let source = lemma_on_time_source(rest, at - 1);
        assert(rest[source] == due[source + 1]);
        source + 1
    }
}

/// Of two packets that wait, the one to arrive earlier goes first, and of two to
/// arrive at once the one that was queued earlier.
pub proof fn law_earlier_packets_go_first(left: QueuedView, right: QueuedView)
    ensures
        left.delivery_ns < right.delivery_ns ==> due_first(left, right) && !due_first(right, left),
        left.delivery_ns == right.delivery_ns && left.insertion_order < right.insertion_order
            ==> due_first(left, right) && !due_first(right, left),
{
}

/// A link starts empty and free, with every counter at zero.
pub proof fn law_link_starts_empty(profile: NetworkProfile, seed: u64)
    ensures
        ({
            let view = SimulatorView::fresh(profile, seed);
            &&& view.profile == profile
            &&& view.rng == seeded(seed)
            &&& view.queue.len() == 0
            &&& view.next_wire_free_ns == 0
            &&& view.insertion_order == 0
            &&& view.stats.submitted == 0
            &&& view.stats.delivered == 0
            &&& view.stats.lost == 0
            &&& view.stats.duplicated == 0
            &&& view.stats.reordered == 0
            &&& view.stats.corrupted == 0
            &&& view.stats.expired == 0
            &&& view.stats.queue_dropped == 0
            &&& view.stats.delivered_bytes == 0
        }),
{
}

/// The next number of the generator, out of a million.
pub open spec fn next_of_a_million(state: u64) -> int {
    scrambled(state) as int % 1_000_000
}

/// A packet is lost exactly if the next number is below the probability of
/// loss, and counted. Where packets are never lost, one is doubled exactly if
/// the next number is below the probability of doubling, and counted.
pub proof fn law_next_number_decides_loss_and_doubling(view: SimulatorView, packet: SimPacketView)
    requires
        0 < packet.bytes.len() <= view.profile.max_packet_bytes,
        packet.send_ns < packet.deadline_ns,
        packet.bytes.len() * 2 <= usize::MAX,
        view.stats.submitted < u64::MAX,
        view.stats.lost < u64::MAX,
        view.stats.duplicated < u64::MAX,
        view.stats.queue_dropped < u64::MAX,
    ensures
        ({
            let step = view.submitting(packet);
            let number = next_of_a_million(view.rng);
            let profile = view.profile;
            let lost = step.1 == Ok::<SubmitOutcome, TransportError>(SubmitOutcome::SimulatedLoss);
            let doubled = profile.duplicate_per_million > 0 && number
                < profile.duplicate_per_million;
            let copies: int = if doubled {
                2
            } else {
                1
            };
            let fits = view.queue.len() + copies <= profile.max_queued_packets && queue_bytes(
                view.queue,
            ) + copies * packet.bytes.len() <= profile.max_queued_bytes;
            &&& step.0.stats.submitted == view.stats.submitted + 1
            &&& lost <==> profile.loss_per_million > 0 && number < profile.loss_per_million
            &&& step.0.stats.lost == view.stats.lost + if lost {
                1int
            } else {
                0int
            }
            &&& profile.loss_per_million == 0 ==> step.0.stats.duplicated == view.stats.duplicated
                + if doubled {
                1int
            } else {
                0int
            }
            &&& profile.loss_per_million == 0 && fits ==> step.1 == Ok::<
                SubmitOutcome,
                TransportError,
            >(SubmitOutcome::Queued { copies: copies as usize })
            &&& profile.loss_per_million == 0 && !fits ==> step.1 == Err::<
                SubmitOutcome,
                TransportError,
            >(TransportError::NetworkQueueFull) && step.0.stats.queue_dropped
                == view.stats.queue_dropped + 1
        }),
{
    let counted = SimulatorView {
        stats: NetworkStats {
            submitted: raised(view.stats.submitted, 1),
            ..view.stats
        },
        ..view
    };
    let loss = counted.tossing(view.profile.loss_per_million);
    if !loss.1 {
        let toss = loss.0.tossing(view.profile.duplicate_per_million);
        let copies: int = if toss.1 {
            2
        } else {
            1
        };
        let start = if toss.1 {
            SimulatorView {
                stats: NetworkStats {
                    duplicated: raised(loss.0.stats.duplicated, 1),
                    ..loss.0.stats
                },
                ..toss.0
            }
        } else {
            toss.0
        };
        lemma_copies_keep_the_counts(start, packet, copies);
        assert(packet.bytes.len() * copies == copies * packet.bytes.len()) by (nonlinear_arith);
    }
}

proof fn lemma_copies_keep_the_counts(view: SimulatorView, packet: SimPacketView, copies: int)
    ensures
        ({
            let after = view.queueing_copies(packet, copies);
            &&& after.stats.submitted == view.stats.submitted
            &&& after.stats.lost == view.stats.lost
            &&& after.stats.duplicated == view.stats.duplicated
            &&& after.stats.queue_dropped == view.stats.queue_dropped
        }),
    decreases copies,
{
    if copies > 0 {
        lemma_copies_keep_the_counts(view, packet, copies - 1);
    }
}

/// A packet is damaged exactly if the next number is below the probability of
/// damage. The two numbers after that choose the byte and the bit that flips.
pub proof fn law_next_numbers_choose_the_bit(view: SimulatorView, packet: SimPacketView)
    requires
        packet.bytes.len() > 0,
        view.profile.corrupt_per_million > 0,
        view.stats.corrupted < u64::MAX,
    ensures
        ({
            let step = view.corrupting(packet);
            let damaged = next_of_a_million(view.rng) < view.profile.corrupt_per_million;
            let place = scrambled(scrambled(view.rng));
            let at = (place as usize) as int % packet.bytes.len() as int;
            let bit = (scrambled(place) % 8) as u32;
            &&& damaged ==> step.1.bytes == flipped(packet.bytes, at, bit)
                && step.0.stats.corrupted == view.stats.corrupted + 1 && step.0.rng == scrambled(
                place,
            )
            &&& !damaged ==> step.1 == packet && step.0.stats == view.stats && step.0.rng
                == scrambled(view.rng)
        }),
{
}

/// A packet is held back exactly if the next number is below the probability of
/// reordering, and counted.
pub proof fn law_next_number_decides_reordering(view: SimulatorView)
    requires
        view.stats.reordered < u64::MAX,
    ensures
        ({
            let step = view.reordering();
            let held_back = view.profile.reorder_per_million > 0 && next_of_a_million(view.rng)
                < view.profile.reorder_per_million;
            &&& step.1 == held_back
            &&& step.0.stats == (NetworkStats {
                reordered: step.0.stats.reordered,
                ..view.stats
            })
            &&& step.0.stats.reordered == view.stats.reordered + if held_back {
                1int
            } else {
                0int
            }
        }),
{
}

/// Jitter is spread evenly from early to late by the next number. Without
/// jitter no number is drawn.
pub proof fn law_next_number_spreads_the_jitter(view: SimulatorView)
    ensures
        ({
            let jitter = view.profile.jitter_ns as int;
            let step = view.jittering();
            &&& jitter == 0 ==> step == (view, 0int)
            &&& jitter > 0 ==> step.1 == scrambled(view.rng) as int % (2 * jitter + 1) - jitter
                && step.0 == (SimulatorView { rng: scrambled(view.rng), ..view })
        }),
{
}

/// The bytes of delivered packets.
pub open spec fn weight(delivered: Seq<DeliveredView>) -> nat
    decreases delivered.len(),
{
    if delivered.len() == 0 {
        0
    } else {
        weight(delivered.drop_last()) + delivered.last().packet.bytes.len()
    }
}

proof fn lemma_weight(first: DeliveredView, rest: Seq<DeliveredView>)
    ensures
        weight(seq![first] + rest) == first.packet.bytes.len() + weight(rest),
    decreases rest.len(),
{
    let whole = seq![first] + rest;
    if rest.len() == 0 {
        assert(whole.drop_last() =~= Seq::<DeliveredView>::empty());
        assert(weight(Seq::<DeliveredView>::empty()) == 0);
    } else {
        lemma_weight(first, rest.drop_last());
        assert(whole.drop_last() =~= seq![first] + rest.drop_last());
    }
}

proof fn lemma_arrived_is_weight(delivered: Seq<DeliveredView>)
    ensures
        arrived_bytes(delivered) == weight(delivered),
    decreases delivered.len(),
{
    if delivered.len() > 0 {
        lemma_arrived_is_weight(delivered.skip(1));
        lemma_weight(delivered[0], delivered.skip(1));
        assert(seq![delivered[0]] + delivered.skip(1) =~= delivered);
    }
}

/// The bytes of what a poll hands out are counted.
pub proof fn law_delivered_bytes_are_counted(view: SimulatorView, now_ns: u64)
    ensures
        ({
            let (after, delivered) = view.polling(now_ns);
            view.stats.delivered_bytes + weight(delivered) <= u64::MAX
                ==> after.stats.delivered_bytes == view.stats.delivered_bytes + weight(delivered)
        }),
{
    lemma_arrived_is_weight(view.polling(now_ns).1);
}

} // verus!
