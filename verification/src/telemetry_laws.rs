//! What a summary says of the timestamps that it was made of.

use crate::telemetry::{
    ascending, csv_line, csv_lines, json_record, json_records,
    law_ascending_is_a_sorted_permutation, nearest_rank, placed, summarized, ClientFrameTrace,
    CollectorView, FrameTraceRecord, HostFrameTrace, Percentiles, TracePushOutcome,
};
use vstd::prelude::*;

verus! {

/// How many of the values are at most `bound`.
pub open spec fn at_most(values: Seq<u64>, bound: u64) -> nat
    decreases values.len(),
{
    if values.len() == 0 {
        0
    } else {
        at_most(values.skip(1), bound) + (if values[0] <= bound {
            1nat
        } else {
            0nat
        })
    }
}

/// How many of the values are less than `bound`.
pub open spec fn below(values: Seq<u64>, bound: u64) -> nat
    decreases values.len(),
{
    if values.len() == 0 {
        0
    } else {
        below(values.skip(1), bound) + (if values[0] < bound {
            1nat
        } else {
            0nat
        })
    }
}

/// One of the values, with at least `percent` of a hundred of them no larger,
/// and fewer than that smaller.
pub open spec fn is_percentile(values: Seq<u64>, value: u64, percent: int) -> bool {
    &&& values.contains(value)
    &&& 100 * at_most(values, value) >= percent * values.len()
    &&& 100 * below(values, value) < percent * values.len()
}

/// The summary is that of these values: their number, the smallest and largest
/// of them, and their percentiles.
pub open spec fn describes(summary: Option<Percentiles>, values: Seq<u64>) -> bool {
    &&& summary is Some <==> values.len() > 0
    &&& summary matches Some(shown) ==> {
        &&& shown.count == values.len()
        &&& values.contains(shown.minimum)
        &&& values.contains(shown.maximum)
        &&& forall|i: int|
            0 <= i < values.len() ==> shown.minimum <= #[trigger] values[i] <= shown.maximum
        &&& is_percentile(values, shown.p50, 50)
        &&& is_percentile(values, shown.p95, 95)
        &&& is_percentile(values, shown.p99, 99)
    }
}

proof fn lemma_placed_counts(sample: u64, sorted: Seq<u64>, bound: u64)
    ensures
        at_most(placed(sample, sorted), bound) == at_most(sorted, bound) + (if sample <= bound {
            1nat
        } else {
            0nat
        }),
        below(placed(sample, sorted), bound) == below(sorted, bound) + (if sample < bound {
            1nat
        } else {
            0nat
        }),
    decreases sorted.len(),
{
    let result = placed(sample, sorted);
    if sorted.len() == 0 || sample <= sorted[0] {
        assert(result.skip(1) =~= sorted);
    } else {
        lemma_placed_counts(sample, sorted.skip(1), bound);
        assert(result.skip(1) =~= placed(sample, sorted.skip(1)));
    }
}

proof fn lemma_sorting_keeps_counts(values: Seq<u64>, bound: u64)
    ensures
        at_most(ascending(values), bound) == at_most(values, bound),
        below(ascending(values), bound) == below(values, bound),
    decreases values.len(),
{
    if values.len() > 0 {
        lemma_sorting_keeps_counts(values.skip(1), bound);
        lemma_placed_counts(values[0], ascending(values.skip(1)), bound);
    }
}

proof fn lemma_first_ones_count(values: Seq<u64>, bound: u64, count: int)
    requires
        0 <= count <= values.len(),
        forall|i: int| 0 <= i < count ==> #[trigger] values[i] <= bound,
    ensures
        at_most(values, bound) >= count,
    decreases count,
{
    if count > 0 {
        let rest = values.skip(1);
        assert forall|i: int| 0 <= i < count - 1 implies #[trigger] rest[i] <= bound by {
            assert(rest[i] == values[i + 1]);
        }
        lemma_first_ones_count(rest, bound, count - 1);
        assert(values[0] <= bound);
    }
}

proof fn lemma_only_first_ones_count(values: Seq<u64>, bound: u64, count: int)
    requires
        0 <= count <= values.len(),
        forall|i: int| count <= i < values.len() ==> #[trigger] values[i] >= bound,
    ensures
        below(values, bound) <= count,
    decreases values.len(),
{
    if values.len() > 0 {
        let rest = values.skip(1);
        let left = if count > 0 {
            count - 1
        } else {
            0
        };
        assert forall|i: int| left <= i < rest.len() implies #[trigger] rest[i] >= bound by {
            assert(rest[i] == values[i + 1]);
        }
        lemma_only_first_ones_count(rest, bound, left);
        if count == 0 {
            assert(values[0] >= bound);
        }
    }
}

proof fn lemma_percentile(values: Seq<u64>, percent: int)
    requires
        0 < values.len(),
        values.len() * 100 <= usize::MAX,
        1 <= percent <= 99,
    ensures
        is_percentile(
            values,
            ascending(values)[nearest_rank(values.len() as int, percent)],
            percent,
        ),
{
    broadcast use vstd::seq_lib::group_to_multiset_ensures;

    let sorted = ascending(values);
    let len = values.len() as int;
    law_ascending_is_a_sorted_permutation(values);
    let product = len * percent;
    assert(0 < product <= len * 99) by (nonlinear_arith)
        requires
            product == len * percent,
            0 < len,
            1 <= percent <= 99,
    ;
    let at = nearest_rank(len, percent);
    assert(0 <= at < len);
    assert(100 * (at + 1) >= product);
    assert(100 * at < product);
    let value = sorted[at];
    lemma_first_ones_count(sorted, value, at + 1);
    lemma_only_first_ones_count(sorted, value, at);
    lemma_sorting_keeps_counts(values, value);
    assert(sorted.contains(value));
    assert(sorted.to_multiset().count(value) > 0);
    assert(percent * len == product) by (nonlinear_arith)
        requires
            product == len * percent,
    ;
}

/// A summary shows the number of samples, their extremes and their nearest-rank
/// percentiles.
pub proof fn law_summary_describes_its_samples(values: Seq<u64>)
    requires
        values.len() * 100 <= usize::MAX,
    ensures
        describes(summarized(values), values),
{
    if values.len() > 0 {
        lemma_percentile(values, 50);
        lemma_percentile(values, 95);
        lemma_percentile(values, 99);
        crate::telemetry::law_percentiles_are_ordered_samples(values);
    }
}

/// How long each record took from one timestamp to another.
pub open spec fn spans(
    records: Seq<FrameTraceRecord>,
    from: spec_fn(FrameTraceRecord) -> u64,
    to: spec_fn(FrameTraceRecord) -> u64,
) -> Seq<u64> {
    Seq::new(records.len(), |i: int| (to(records[i]) - from(records[i])) as u64)
}

/// Every stage is summarized under its own name: capture to encode is the time
/// from the end of capture to the start of encoding, the queue after encoding
/// the time from its end to sending, and so on at both ends. The counters are
/// those of the collector.
pub proof fn law_stages_are_summarized_under_their_names(view: CollectorView)
    requires
        view.is_valid(),
        view.records.len() * 100 <= usize::MAX,
    ensures
        ({
            let summary = view.summary();
            let records = view.records;
            &&& summary.records == records.len()
            &&& summary.rejected == view.rejected
            &&& summary.evicted == view.evicted
            &&& describes(
                summary.host_capture_to_encode_ns,
                spans(
                    records,
                    |record: FrameTraceRecord| record.host.capture_done_ns,
                    |record: FrameTraceRecord| record.host.encode_begin_ns,
                ),
            )
            &&& describes(
                summary.host_encode_ns,
                spans(
                    records,
                    |record: FrameTraceRecord| record.host.encode_begin_ns,
                    |record: FrameTraceRecord| record.host.encode_done_ns,
                ),
            )
            &&& describes(
                summary.host_post_encode_queue_ns,
                spans(
                    records,
                    |record: FrameTraceRecord| record.host.encode_done_ns,
                    |record: FrameTraceRecord| record.host.send_ns,
                ),
            )
            &&& describes(
                summary.client_receive_queue_ns,
                spans(
                    records,
                    |record: FrameTraceRecord| record.client.receive_ns,
                    |record: FrameTraceRecord| record.client.decode_begin_ns,
                ),
            )
            &&& describes(
                summary.client_decode_ns,
                spans(
                    records,
                    |record: FrameTraceRecord| record.client.decode_begin_ns,
                    |record: FrameTraceRecord| record.client.decode_done_ns,
                ),
            )
            &&& describes(
                summary.client_post_decode_queue_ns,
                spans(
                    records,
                    |record: FrameTraceRecord| record.client.decode_done_ns,
                    |record: FrameTraceRecord| record.client.present_submit_ns,
                ),
            )
        }),
{
    let records = view.records;
    let capture = spans(
        records,
        |record: FrameTraceRecord| record.host.capture_done_ns,
        |record: FrameTraceRecord| record.host.encode_begin_ns,
    );
    let encode = spans(
        records,
        |record: FrameTraceRecord| record.host.encode_begin_ns,
        |record: FrameTraceRecord| record.host.encode_done_ns,
    );
    let queue = spans(
        records,
        |record: FrameTraceRecord| record.host.encode_done_ns,
        |record: FrameTraceRecord| record.host.send_ns,
    );
    let receive = spans(
        records,
        |record: FrameTraceRecord| record.client.receive_ns,
        |record: FrameTraceRecord| record.client.decode_begin_ns,
    );
    let decode = spans(
        records,
        |record: FrameTraceRecord| record.client.decode_begin_ns,
        |record: FrameTraceRecord| record.client.decode_done_ns,
    );
    let present = spans(
        records,
        |record: FrameTraceRecord| record.client.decode_done_ns,
        |record: FrameTraceRecord| record.client.present_submit_ns,
    );
    assert(capture =~= records.map_values(
        |record: FrameTraceRecord| record.host.stages().capture_to_encode_ns,
    ));
    assert(encode =~= records.map_values(
        |record: FrameTraceRecord| record.host.stages().encode_ns,
    ));
    assert(queue =~= records.map_values(
        |record: FrameTraceRecord| record.host.stages().post_encode_queue_ns,
    ));
    assert(receive =~= records.map_values(
        |record: FrameTraceRecord| record.client.stages().receive_queue_ns,
    ));
    assert(decode =~= records.map_values(
        |record: FrameTraceRecord| record.client.stages().decode_ns,
    ));
    assert(present =~= records.map_values(
        |record: FrameTraceRecord| record.client.stages().post_decode_queue_ns,
    ));
    law_summary_describes_its_samples(capture);
    law_summary_describes_its_samples(encode);
    law_summary_describes_its_samples(queue);
    law_summary_describes_its_samples(receive);
    law_summary_describes_its_samples(decode);
    law_summary_describes_its_samples(present);
}

/// With a single record every value of a stage's summary is the time between
/// that stage's two timestamps.
pub proof fn law_single_record_is_its_own_summary(view: CollectorView)
    requires
        view.is_valid(),
        view.records.len() == 1,
    ensures
        ({
            let summary = view.summary();
            let host = view.records[0].host;
            let client = view.records[0].client;
            &&& all_equal(
                summary.host_capture_to_encode_ns,
                host.encode_begin_ns - host.capture_done_ns,
            )
            &&& all_equal(summary.host_encode_ns, host.encode_done_ns - host.encode_begin_ns)
            &&& all_equal(summary.host_post_encode_queue_ns, host.send_ns - host.encode_done_ns)
            &&& all_equal(
                summary.client_receive_queue_ns,
                client.decode_begin_ns - client.receive_ns,
            )
            &&& all_equal(
                summary.client_decode_ns,
                client.decode_done_ns - client.decode_begin_ns,
            )
            &&& all_equal(
                summary.client_post_decode_queue_ns,
                client.present_submit_ns - client.decode_done_ns,
            )
        }),
{
    law_stages_are_summarized_under_their_names(view);
    assert(view.records[0].is_valid());
}

/// The summary of a single value.
pub open spec fn all_equal(summary: Option<Percentiles>, value: int) -> bool {
    summary matches Some(shown) && shown.count == 1 && shown.minimum == value && shown.p50 == value
        && shown.p95 == value && shown.p99 == value && shown.maximum == value
}

/// Durations exist exactly where no timestamp lies before the one of the stage
/// before it, and are the times between neighbouring timestamps.
pub proof fn law_durations_are_times_between(host: HostFrameTrace, client: ClientFrameTrace)
    ensures
        host.is_monotonic() <==> host.encode_begin_ns >= host.capture_done_ns
            && host.encode_done_ns >= host.encode_begin_ns && host.send_ns >= host.encode_done_ns,
        client.is_monotonic() <==> client.decode_begin_ns >= client.receive_ns
            && client.decode_done_ns >= client.decode_begin_ns && client.present_submit_ns
            >= client.decode_done_ns,
        host.is_monotonic() ==> {
            let stages = host.stages();
            &&& host.capture_done_ns + stages.capture_to_encode_ns == host.encode_begin_ns
            &&& host.encode_begin_ns + stages.encode_ns == host.encode_done_ns
            &&& host.encode_done_ns + stages.post_encode_queue_ns == host.send_ns
        },
        client.is_monotonic() ==> {
            let stages = client.stages();
            &&& client.receive_ns + stages.receive_queue_ns == client.decode_begin_ns
            &&& client.decode_begin_ns + stages.decode_ns == client.decode_done_ns
            &&& client.decode_done_ns + stages.post_decode_queue_ns == client.present_submit_ns
        },
{
}

/// A record is kept exactly if both halves name one frame and neither clock
/// runs backwards. It comes last; the oldest leaves exactly if the collector
/// was full. A refused record changes nothing but its counter.
pub proof fn law_sound_records_are_kept(view: CollectorView, record: FrameTraceRecord)
    requires
        0 < view.max_records,
        view.records.len() <= view.max_records,
    ensures
        ({
            let (after, outcome) = view.pushing(record);
            let sound = record.host.frame_id == record.client.frame_id
                && record.host.capture_done_ns <= record.host.encode_begin_ns
                && record.host.encode_begin_ns <= record.host.encode_done_ns
                && record.host.encode_done_ns <= record.host.send_ns && record.client.receive_ns
                <= record.client.decode_begin_ns && record.client.decode_begin_ns
                <= record.client.decode_done_ns && record.client.decode_done_ns
                <= record.client.present_submit_ns;
            let full = view.records.len() == view.max_records;
            &&& after.max_records == view.max_records
            &&& outcome == TracePushOutcome::RejectedNonMonotonic <==> !sound
            &&& !sound ==> after.records == view.records && after.evicted == view.evicted
            &&& !sound && view.rejected < u64::MAX ==> after.rejected == view.rejected + 1
            &&& sound ==> after.rejected == view.rejected
            &&& sound ==> after.records.len() > 0 && after.records.last() == record
            &&& sound && !full ==> outcome == TracePushOutcome::Inserted
                && after.records.drop_last() == view.records && after.evicted == view.evicted
            &&& sound && full ==> outcome == TracePushOutcome::EvictedOldest
                && after.records.drop_last() == view.records.skip(1)
            &&& sound && full && view.evicted < u64::MAX ==> after.evicted == view.evicted + 1
        }),
{
    let (after, _outcome) = view.pushing(record);
    if record.is_valid() {
        if view.records.len() == view.max_records {
            assert(after.records.drop_last() =~= view.records.skip(1));
        } else {
            assert(after.records.drop_last() =~= view.records);
        }
    }
}

/// Every record adds one line to the CSV export, and one object to the JSON
/// export, with a comma before it where it is not the first.
pub proof fn law_exports_hold_every_record(records: Seq<FrameTraceRecord>, record: FrameTraceRecord)
    ensures
        csv_lines(Seq::empty()) == Seq::<char>::empty(),
        csv_lines(records.push(record)) == csv_lines(records) + csv_line(record),
        json_records(Seq::empty()) == Seq::<char>::empty(),
        json_records(seq![record]) == json_record(record),
        records.len() > 0 ==> json_records(records.push(record)) == json_records(records) + ","@
            + json_record(record),
{
    assert(records.push(record).drop_last() =~= records);
}

} // verus!
