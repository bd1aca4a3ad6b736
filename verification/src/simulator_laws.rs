//! What the simulated link promises over a whole run.

use crate::counter::raised;
use crate::error::TransportError;
use crate::simulator::{
    arrived_bytes, by_delivery, due_count, due_first, is_sorted, law_sorting_is_a_permutation,
    lemma_by_delivery, lemma_due_count_bound, on_time, DeliveredView, NetworkProfile,
    NetworkStats, QueuedView, SimPacketView, SimulatorView, SubmitOutcome,
};
use vstd::prelude::*;

verus! {

/// One call of the link.
pub enum LinkCall {
    Submit(SimPacketView),
    Poll(u64),
}

/// What a call of the link gives.
pub enum LinkAnswer {
    Submitted(Result<SubmitOutcome, TransportError>),
    Delivered(Seq<DeliveredView>),
}

/// The link after a call, and what the call gave.
pub open spec fn called(view: SimulatorView, call: LinkCall) -> (SimulatorView, LinkAnswer) {
    match call {
        LinkCall::Submit(packet) => {
            let step = view.submitting(packet);
            (step.0, LinkAnswer::Submitted(step.1))
        },
        LinkCall::Poll(now_ns) => {
            let step = view.polling(now_ns);
            (step.0, LinkAnswer::Delivered(step.1))
        },
    }
}

/// A history of a link: every call takes one state to the next and gives one
/// answer.
pub open spec fn is_run(
    states: Seq<SimulatorView>,
    calls: Seq<LinkCall>,
    answers: Seq<LinkAnswer>,
) -> bool {
    &&& states.len() == calls.len() + 1
    &&& answers.len() == calls.len()
    &&& forall|i: int|
        0 <= i < calls.len() ==> (states[i + 1], #[trigger] answers[i]) == called(
            states[i],
            calls[i],
        )
}

proof fn lemma_same_states(
    left: Seq<SimulatorView>,
    right: Seq<SimulatorView>,
    calls: Seq<LinkCall>,
    left_answers: Seq<LinkAnswer>,
    right_answers: Seq<LinkAnswer>,
    at: int,
)
    requires
        is_run(left, calls, left_answers),
        is_run(right, calls, right_answers),
        left[0] == right[0],
        0 <= at <= calls.len(),
    ensures
        left[at] == right[at],
    decreases at,
{
    if at > 0 {
        lemma_same_states(left, right, calls, left_answers, right_answers, at - 1);
        assert((left[at], left_answers[at - 1]) == called(left[at - 1], calls[at - 1]));
        assert((right[at], right_answers[at - 1]) == called(right[at - 1], calls[at - 1]));
    }
}

/// The link is reproducible: with equal profiles, equal seeds and equal calls
/// two links give equal answers and go through equal states.
pub proof fn law_link_is_reproducible(
    profile: NetworkProfile,
    seed: u64,
    left: Seq<SimulatorView>,
    right: Seq<SimulatorView>,
    calls: Seq<LinkCall>,
    left_answers: Seq<LinkAnswer>,
    right_answers: Seq<LinkAnswer>,
)
    requires
        is_run(left, calls, left_answers),
        is_run(right, calls, right_answers),
        left[0] == SimulatorView::fresh(profile, seed),
        right[0] == SimulatorView::fresh(profile, seed),
    ensures
        left == right,
        left_answers == right_answers,
{
    assert forall|i: int| 0 <= i < left.len() implies left[i] == right[i] by {
        lemma_same_states(left, right, calls, left_answers, right_answers, i);
    }
    assert(left =~= right);
    assert forall|i: int| 0 <= i < left_answers.len() implies left_answers[i]
        == right_answers[i] by {
        assert((left[i + 1], left_answers[i]) == called(left[i], calls[i]));
        assert((right[i + 1], right_answers[i]) == called(right[i], calls[i]));
    }
    assert(left_answers =~= right_answers);
}

/// How many packets the answers say were queued.
pub open spec fn packets_queued(answers: Seq<LinkAnswer>) -> nat
    decreases answers.len(),
{
    if answers.len() == 0 {
        0
    } else {
        packets_queued(answers.drop_last()) + match answers.last() {
            LinkAnswer::Submitted(Ok(SubmitOutcome::Queued { .. })) => 1nat,
            _ => 0,
        }
    }
}

/// How many copies of packets the answers say were queued.
pub open spec fn copies_queued(answers: Seq<LinkAnswer>) -> nat
    decreases answers.len(),
{
    if answers.len() == 0 {
        0
    } else {
        copies_queued(answers.drop_last()) + match answers.last() {
            LinkAnswer::Submitted(Ok(SubmitOutcome::Queued { copies })) => copies as nat,
            _ => 0,
        }
    }
}

/// How many packets the answers hand out.
pub open spec fn packets_delivered(answers: Seq<LinkAnswer>) -> nat
    decreases answers.len(),
{
    if answers.len() == 0 {
        0
    } else {
        packets_delivered(answers.drop_last()) + match answers.last() {
            LinkAnswer::Delivered(delivered) => delivered.len(),
            _ => 0,
        }
    }
}

/// How many packets the answers refuse because their copies cannot be counted.
pub open spec fn packets_uncountable(answers: Seq<LinkAnswer>) -> nat
    decreases answers.len(),
{
    if answers.len() == 0 {
        0
    } else {
        packets_uncountable(answers.drop_last()) + match answers.last() {
            LinkAnswer::Submitted(Err(TransportError::Arithmetic)) => 1nat,
            _ => 0,
        }
    }
}

/// No counter of packets stands at its largest value.
pub open spec fn counters_run(stats: NetworkStats) -> bool {
    &&& stats.submitted < u64::MAX
    &&& stats.lost < u64::MAX
    &&& stats.queue_dropped < u64::MAX
    &&& stats.delivered < u64::MAX
    &&& stats.expired < u64::MAX
}

/// Two copies of every submitted packet have a length that can be counted.
pub open spec fn lengths_are_countable(calls: Seq<LinkCall>) -> bool {
    forall|i: int|
        0 <= i < calls.len() ==> match #[trigger] calls[i] {
            LinkCall::Submit(packet) => packet.bytes.len() * 2 <= usize::MAX,
            LinkCall::Poll(_) => true,
        }
}

proof fn lemma_queueing_copies(view: SimulatorView, packet: SimPacketView, copies: int)
    requires
        0 <= copies,
    ensures
        ({
            let queued = view.queueing_copies(packet, copies);
            &&& queued.queue.len() == view.queue.len() + copies
            &&& queued.stats.submitted == view.stats.submitted
            &&& queued.stats.lost == view.stats.lost
            &&& queued.stats.queue_dropped == view.stats.queue_dropped
            &&& queued.stats.delivered == view.stats.delivered
            &&& queued.stats.expired == view.stats.expired
        }),
    decreases copies,
{
    if copies > 0 {
        lemma_queueing_copies(view, packet, copies - 1);
    }
}

proof fn lemma_on_time_len(due: Seq<QueuedView>)
    ensures
        on_time(due).len() <= due.len(),
    decreases due.len(),
{
    if due.len() > 0 {
        lemma_on_time_len(due.skip(1));
    }
}

/// What is conserved, while no counter has stopped at its largest value.
spec fn balanced(view: SimulatorView, answers: Seq<LinkAnswer>) -> bool {
    &&& view.stats.submitted == view.stats.lost + view.stats.queue_dropped + packets_queued(answers)
        + packets_uncountable(answers)
    &&& copies_queued(answers) == view.stats.delivered + view.stats.expired + view.queue.len()
    &&& view.stats.delivered == packets_delivered(answers)
}

proof fn lemma_balanced(
    profile: NetworkProfile,
    seed: u64,
    states: Seq<SimulatorView>,
    calls: Seq<LinkCall>,
    answers: Seq<LinkAnswer>,
    count: int,
)
    requires
        is_run(states, calls, answers),
        states[0] == SimulatorView::fresh(profile, seed),
        0 <= count <= calls.len(),
        counters_run(states[count].stats),
    ensures
        balanced(states[count], answers.take(count)),
        lengths_are_countable(calls) ==> packets_uncountable(answers.take(count)) == 0,
    decreases count,
{
    if count == 0 {
        assert(answers.take(0) =~= Seq::empty());
    } else {
        let before = states[count - 1];
        let earlier = answers.take(count - 1);
        assert(answers.take(count).drop_last() =~= earlier);
        assert(answers.take(count).last() == answers[count - 1]);
        assert((states[count], answers[count - 1]) == called(before, calls[count - 1]));
        match calls[count - 1] {
            LinkCall::Submit(packet) => {
                lemma_submission(before, packet);
            },
            LinkCall::Poll(now_ns) => {
                let sorted = by_delivery(before.queue);
                lemma_by_delivery(before.queue);
                lemma_due_count_bound(sorted, now_ns);
                lemma_on_time_len(before.due(now_ns));
            },
        }
        lemma_balanced(profile, seed, states, calls, answers, count - 1);
    }
}

proof fn lemma_submission(view: SimulatorView, packet: SimPacketView)
    ensures
        ({
            let step = view.submitting(packet);
            let stats = step.0.stats;
            &&& stats.delivered == view.stats.delivered
            &&& stats.expired == view.stats.expired
            &&& match step.1 {
                Ok(SubmitOutcome::SimulatedLoss) => {
                    &&& stats.submitted == raised(view.stats.submitted, 1)
                    &&& stats.lost == raised(view.stats.lost, 1)
                    &&& stats.queue_dropped == view.stats.queue_dropped
                    &&& step.0.queue == view.queue
                },
                Ok(SubmitOutcome::Queued { copies }) => {
                    &&& 1 <= copies <= 2
                    &&& stats.submitted == raised(view.stats.submitted, 1)
                    &&& stats.lost == view.stats.lost
                    &&& stats.queue_dropped == view.stats.queue_dropped
                    &&& step.0.queue.len() == view.queue.len() + copies
                },
                Err(TransportError::NetworkQueueFull) => {
                    &&& stats.submitted == raised(view.stats.submitted, 1)
                    &&& stats.lost == view.stats.lost
                    &&& stats.queue_dropped == raised(view.stats.queue_dropped, 1)
                    &&& step.0.queue == view.queue
                },
                Err(TransportError::Arithmetic) => {
                    &&& packet.bytes.len() * 2 > usize::MAX
                    &&& stats.submitted == raised(view.stats.submitted, 1)
                    &&& stats.lost == view.stats.lost
                    &&& stats.queue_dropped == view.stats.queue_dropped
                    &&& step.0.queue == view.queue
                },
                Err(_) => step.0 == view,
            }
        }),
{
    if packet.fault(view.profile.max_packet_bytes) is None {
        let submitted = SimulatorView {
            stats: NetworkStats {
                submitted: raised(view.stats.submitted, 1),
                ..view.stats
            },
            ..view
        };
        let loss = submitted.tossing(view.profile.loss_per_million);
        if !loss.1 {
            let toss = loss.0.tossing(view.profile.duplicate_per_million);
            let doubled = SimulatorView {
                stats: NetworkStats {
                    duplicated: raised(loss.0.stats.duplicated, 1),
                    ..loss.0.stats
                },
                ..toss.0
            };
            lemma_queueing_copies(toss.0, packet, 1);
            lemma_queueing_copies(doubled, packet, 2);
        }
    }
}

/// Nothing disappears on the link without being counted. Over any run from an
/// empty link, as long as no counter stands at its largest value, every accepted
/// packet was lost, dropped at a full queue, refused because its copies cannot
/// be counted, or queued; and every queued copy was delivered, expired or still
/// waits. A packet whose copies cannot be counted is longer than half of what a
/// length can say.
pub proof fn law_link_conserves_packets(
    profile: NetworkProfile,
    seed: u64,
    states: Seq<SimulatorView>,
    calls: Seq<LinkCall>,
    answers: Seq<LinkAnswer>,
)
    requires
        is_run(states, calls, answers),
        states[0] == SimulatorView::fresh(profile, seed),
        counters_run(states.last().stats),
    ensures
        ({
            let view = states.last();
            &&& view.stats.submitted == view.stats.lost + view.stats.queue_dropped
                + packets_queued(answers) + packets_uncountable(answers)
            &&& lengths_are_countable(calls) ==> packets_uncountable(answers) == 0
            &&& copies_queued(answers) == view.stats.delivered + view.stats.expired
                + view.queue.len()
            &&& view.stats.delivered == packets_delivered(answers)
        }),
{
    lemma_balanced(profile, seed, states, calls, answers, calls.len() as int);
    assert(answers.take(calls.len() as int) =~= answers);
}

// ---------------------------------------------------------------------------
// Polling twice
// ---------------------------------------------------------------------------
proof fn lemma_sorted_stays(queue: Seq<QueuedView>)
    requires
        is_sorted(queue),
    ensures
        by_delivery(queue) == queue,
    decreases queue.len(),
{
    if queue.len() > 0 {
        let rest = queue.skip(1);
        assert forall|i: int, j: int| 0 <= i < j < rest.len() implies due_first(
            #[trigger] rest[i],
            #[trigger] rest[j],
        ) by {
            assert(rest[i] == queue[i + 1] && rest[j] == queue[j + 1]);
        }
        lemma_sorted_stays(rest);
        if rest.len() > 0 {
            assert(due_first(queue[0], queue[1]));
        }
        assert(seq![queue[0]] + rest =~= queue);
    } else {
        assert(queue =~= Seq::empty());
    }
}

proof fn lemma_due_in_two(sorted: Seq<QueuedView>, early_ns: u64, late_ns: u64)
    requires
        early_ns <= late_ns,
    ensures
        due_count(sorted, early_ns) <= due_count(sorted, late_ns) <= sorted.len(),
        due_count(sorted.skip(due_count(sorted, early_ns) as int), late_ns) == due_count(
            sorted,
            late_ns,
        ) - due_count(sorted, early_ns),
    decreases sorted.len(),
{
    lemma_due_count_bound(sorted, late_ns);
    if sorted.len() > 0 && sorted[0].delivery_ns <= early_ns {
        let rest = sorted.skip(1);
        lemma_due_in_two(rest, early_ns, late_ns);
        let count = due_count(rest, early_ns) as int;
        assert(sorted.skip(count + 1) =~= rest.skip(count));
    } else {
        assert(sorted.skip(0) =~= sorted);
    }
}

proof fn lemma_on_time_concat(left: Seq<QueuedView>, right: Seq<QueuedView>)
    ensures
        on_time(left + right) == on_time(left) + on_time(right),
    decreases left.len(),
{
    if left.len() == 0 {
        assert(left + right =~= right);
        assert(on_time(left) + on_time(right) =~= on_time(right));
    } else {
        let rest = left.skip(1);
        assert((left + right).skip(1) =~= rest + right);
        lemma_on_time_concat(rest, right);
        assert(on_time(left + right) =~= on_time(left) + on_time(right));
    }
}

proof fn lemma_arrived_concat(left: Seq<DeliveredView>, right: Seq<DeliveredView>)
    ensures
        arrived_bytes(left + right) == arrived_bytes(left) + arrived_bytes(right),
    decreases left.len(),
{
    if left.len() == 0 {
        assert(left + right =~= right);
    } else {
        assert((left + right).skip(1) =~= left.skip(1) + right);
        lemma_arrived_concat(left.skip(1), right);
    }
}

/// Polling more often neither loses, repeats nor reorders packets: a poll and a
/// later one hand out together what the later one alone hands out, in the same
/// order, and leave the same link behind.
pub proof fn law_polling_in_two_steps(view: SimulatorView, early_ns: u64, late_ns: u64)
    requires
        early_ns <= late_ns,
    ensures
        ({
            let first = view.polling(early_ns);
            let second = first.0.polling(late_ns);
            let once = view.polling(late_ns);
            &&& first.1 + second.1 == once.1
            &&& second.0 == once.0
        }),
{
    let first = view.polling(early_ns);
    let second = first.0.polling(late_ns);
    let once = view.polling(late_ns);
    let sorted = by_delivery(view.queue);
    law_sorting_is_a_permutation(view.queue);
    lemma_due_in_two(sorted, early_ns, late_ns);
    let early = due_count(sorted, early_ns) as int;
    let late = due_count(sorted, late_ns) as int;
    let rest = sorted.skip(early);
    assert forall|i: int, j: int| 0 <= i < j < rest.len() implies due_first(
        #[trigger] rest[i],
        #[trigger] rest[j],
    ) by {
        assert(rest[i] == sorted[i + early] && rest[j] == sorted[j + early]);
    }
    lemma_sorted_stays(rest);
    let between = rest.take(late - early);
    assert(first.0.due(late_ns) =~= between);
    assert(view.due(late_ns) =~= view.due(early_ns) + between);
    assert(second.0.queue =~= once.0.queue);
    lemma_on_time_concat(view.due(early_ns), between);
    lemma_arrived_concat(first.1, second.1);
    lemma_on_time_len(view.due(early_ns));
    lemma_on_time_len(between);
    assert(second.0 =~= once.0);
}

} // verus!
