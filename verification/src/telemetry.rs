//! Per-frame latency telemetry with explicit clock-domain boundaries.
//!
//! Host and client timestamps are never subtracted from one another. Optical
//! input-to-photon measurements remain the source of truth for end-to-end latency.

use crate::counter::{least, raised};
use crate::text::{decimal, push_decimal, push_field, push_text};
use std::collections::VecDeque;
use vstd::prelude::*;
use vstd::string::*;

verus! {

/// Timestamps measured entirely in the host monotonic clock domain.
#[derive(Debug, Clone, Copy, PartialEq, Eq, Structural)]
pub struct HostFrameTrace {
    pub frame_id: u64,
    pub capture_done_ns: u64,
    pub encode_begin_ns: u64,
    pub encode_done_ns: u64,
    pub send_ns: u64,
}

/// Validated host stage durations.
#[derive(Debug, Clone, Copy, PartialEq, Eq, Structural)]
pub struct HostDurations {
    pub capture_to_encode_ns: u64,
    pub encode_ns: u64,
    pub post_encode_queue_ns: u64,
}

impl HostFrameTrace {
    /// Every stage ends no earlier than it began.
    pub open spec fn is_monotonic(self) -> bool {
        self.capture_done_ns <= self.encode_begin_ns <= self.encode_done_ns <= self.send_ns
    }

    /// The stage durations of a monotonic trace.
    pub open spec fn stages(self) -> HostDurations {
        HostDurations {
            capture_to_encode_ns: (self.encode_begin_ns - self.capture_done_ns) as u64,
            encode_ns: (self.encode_done_ns - self.encode_begin_ns) as u64,
            post_encode_queue_ns: (self.send_ns - self.encode_done_ns) as u64,
        }
    }

    /// Computes durations only when every timestamp is monotonic.
    pub fn durations(self) -> (durations: Option<HostDurations>)
        ensures
            durations == (if self.is_monotonic() {
                Some(self.stages())
            } else {
                None::<HostDurations>
            }),
    {
        if self.capture_done_ns > self.encode_begin_ns || self.encode_begin_ns
            > self.encode_done_ns || self.encode_done_ns > self.send_ns {
            return None;
        }
        Some(
            HostDurations {
                capture_to_encode_ns: self.encode_begin_ns - self.capture_done_ns,
                encode_ns: self.encode_done_ns - self.encode_begin_ns,
                post_encode_queue_ns: self.send_ns - self.encode_done_ns,
            },
        )
    }
}

/// Timestamps measured entirely in the client monotonic clock domain.
#[derive(Debug, Clone, Copy, PartialEq, Eq, Structural)]
pub struct ClientFrameTrace {
    pub frame_id: u64,
    pub receive_ns: u64,
    pub decode_begin_ns: u64,
    pub decode_done_ns: u64,
    pub present_submit_ns: u64,
}

/// Validated client stage durations.
#[derive(Debug, Clone, Copy, PartialEq, Eq, Structural)]
pub struct ClientDurations {
    pub receive_queue_ns: u64,
    pub decode_ns: u64,
    pub post_decode_queue_ns: u64,
}

impl ClientFrameTrace {
    /// Every stage ends no earlier than it began.
    pub open spec fn is_monotonic(self) -> bool {
        self.receive_ns <= self.decode_begin_ns <= self.decode_done_ns <= self.present_submit_ns
    }

    /// The stage durations of a monotonic trace.
    pub open spec fn stages(self) -> ClientDurations {
        ClientDurations {
            receive_queue_ns: (self.decode_begin_ns - self.receive_ns) as u64,
            decode_ns: (self.decode_done_ns - self.decode_begin_ns) as u64,
            post_decode_queue_ns: (self.present_submit_ns - self.decode_done_ns) as u64,
        }
    }

    /// Computes durations only when every timestamp is monotonic.
    pub fn durations(self) -> (durations: Option<ClientDurations>)
        ensures
            durations == (if self.is_monotonic() {
                Some(self.stages())
            } else {
                None::<ClientDurations>
            }),
    {
        if self.receive_ns > self.decode_begin_ns || self.decode_begin_ns > self.decode_done_ns
            || self.decode_done_ns > self.present_submit_ns {
            return None;
        }
        Some(
            ClientDurations {
                receive_queue_ns: self.decode_begin_ns - self.receive_ns,
                decode_ns: self.decode_done_ns - self.decode_begin_ns,
                post_decode_queue_ns: self.present_submit_ns - self.decode_done_ns,
            },
        )
    }
}

/// Optional network clock model. This is an estimate, never optical ground truth.
#[derive(Debug, Clone, Copy, PartialEq, Eq, Structural)]
pub struct ClockEstimate {
    pub remote_minus_local_ns: i64,
    pub uncertainty_ns: u64,
    pub sample_count: u32,
}

impl ClockEstimate {
    /// Whether the estimate is certain enough and rests on enough samples.
    pub fn is_usable(self, max_uncertainty_ns: u64, min_samples: u32) -> (usable: bool)
        ensures
            usable == (self.uncertainty_ns <= max_uncertainty_ns && self.sample_count
                >= min_samples),
    {
        self.uncertainty_ns <= max_uncertainty_ns && self.sample_count >= min_samples
    }
}

/// One complete laboratory record.
#[derive(Debug, Clone, Copy, PartialEq, Eq, Structural)]
pub struct FrameTraceRecord {
    pub host: HostFrameTrace,
    pub client: ClientFrameTrace,
    pub encoded_bytes: u64,
    pub datagrams: u32,
    pub recovery_count: u32,
}

impl FrameTraceRecord {
    /// Both halves describe the same frame and are monotonic in their own
    /// clock domain.
    pub open spec fn is_valid(self) -> bool {
        &&& self.host.frame_id == self.client.frame_id
        &&& self.host.is_monotonic()
        &&& self.client.is_monotonic()
    }

    /// Whether both halves agree.
    pub fn valid(self) -> (valid: bool)
        ensures
            valid == self.is_valid(),
    {
        self.host.frame_id == self.client.frame_id && self.host.durations().is_some()
            && self.client.durations().is_some()
    }
}

/// Result of inserting a trace into a bounded collector.
#[derive(Debug, Clone, Copy, PartialEq, Eq, Structural)]
pub enum TracePushOutcome {
    Inserted,
    EvictedOldest,
    RejectedNonMonotonic,
}

// ---------------------------------------------------------------------------
// Distributions
// ---------------------------------------------------------------------------
/// Nearest-rank distribution summary.
#[derive(Debug, Clone, Copy, PartialEq, Eq, Structural)]
pub struct Percentiles {
    pub count: usize,
    pub minimum: u64,
    pub p50: u64,
    pub p95: u64,
    pub p99: u64,
    pub maximum: u64,
}

/// Puts a sample in front of all that are not smaller.
pub open spec fn placed(sample: u64, sorted: Seq<u64>) -> Seq<u64>
    decreases sorted.len(),
{
    if sorted.len() == 0 || sample <= sorted[0] {
        seq![sample] + sorted
    } else {
        seq![sorted[0]] + placed(sample, sorted.skip(1))
    }
}

/// The samples in increasing order.
pub open spec fn ascending(samples: Seq<u64>) -> Seq<u64>
    decreases samples.len(),
{
    if samples.len() == 0 {
        Seq::empty()
    } else {
        placed(samples[0], ascending(samples.skip(1)))
    }
}

/// Index of the nearest rank among `len` sorted samples.
pub open spec fn nearest_rank(len: int, percent: int) -> int {
    let rank = least(least(len * percent, usize::MAX as int) + 99, usize::MAX as int) / 100;
    least(
        if rank == 0 {
            0
        } else {
            rank - 1
        },
        len - 1,
    )
}

/// The summary of samples.
pub open spec fn summarized(samples: Seq<u64>) -> Option<Percentiles> {
    if samples.len() == 0 {
        None
    } else {
        let sorted = ascending(samples);
        let len = samples.len() as int;
        Some(
            Percentiles {
                count: len as usize,
                minimum: sorted[0],
                p50: sorted[nearest_rank(len, 50)],
                p95: sorted[nearest_rank(len, 95)],
                p99: sorted[nearest_rank(len, 99)],
                maximum: sorted[len - 1],
            },
        )
    }
}

/// In increasing order.
pub open spec fn is_ascending(samples: Seq<u64>) -> bool {
    forall|i: int, j: int| 0 <= i < j < samples.len() ==> samples[i] <= samples[j]
}

proof fn lemma_placed(sample: u64, sorted: Seq<u64>)
    ensures
        placed(sample, sorted).len() == sorted.len() + 1,
        placed(sample, sorted).to_multiset() == sorted.to_multiset().insert(sample),
        is_ascending(sorted) ==> is_ascending(placed(sample, sorted)),
        forall|i: int|
            0 <= i < placed(sample, sorted).len() ==> (#[trigger] placed(sample, sorted)[i])
                == sample || sorted.contains(placed(sample, sorted)[i]),
    decreases sorted.len(),
{
    broadcast use vstd::seq_lib::group_to_multiset_ensures;

    let result = placed(sample, sorted);
    vstd::seq_lib::lemma_multiset_commutative(seq![sample], sorted);
    assert(seq![sample] =~= Seq::empty().push(sample));
    if sorted.len() == 0 || sample <= sorted[0] {
        assert(result.to_multiset() =~= sorted.to_multiset().insert(sample));
        assert forall|i: int| 0 <= i < result.len() implies (#[trigger] result[i]) == sample
            || sorted.contains(result[i]) by {
            if i > 0 {
                assert(sorted[i - 1] == result[i]);
            }
        }
    } else {
        let first = sorted[0];
        let rest = sorted.skip(1);
        let tail = placed(sample, rest);
        lemma_placed(sample, rest);
        vstd::seq_lib::lemma_multiset_commutative(seq![first], tail);
        vstd::seq_lib::lemma_multiset_commutative(seq![first], rest);
        assert(seq![first] =~= Seq::empty().push(first));
        assert(sorted =~= seq![first] + rest);
        assert(result.to_multiset() =~= sorted.to_multiset().insert(sample));
        assert forall|i: int| 0 <= i < result.len() implies (#[trigger] result[i]) == sample
            || sorted.contains(result[i]) by {
            if i > 0 {
                assert(result[i] == tail[i - 1]);
                if tail[i - 1] != sample {
                    let k = rest.index_of(tail[i - 1]);
                    assert(sorted[k + 1] == tail[i - 1]);
                }
            } else {
                assert(sorted[0] == result[0]);
            }
        }
        if is_ascending(sorted) {
            assert forall|i: int, j: int| 0 <= i < j < result.len() implies result[i]
                <= result[j] by {
                assert(result[j] == tail[j - 1]);
                if i > 0 {
                    assert(result[i] == tail[i - 1]);
                } else if tail[j - 1] != sample {
                    let k = rest.index_of(tail[j - 1]);
                    assert(sorted[0] <= sorted[k + 1]);
                }
            }
        }
    }
}

/// Sorting samples orders them and loses or invents none.
pub proof fn law_ascending_is_a_sorted_permutation(samples: Seq<u64>)
    ensures
        is_ascending(ascending(samples)),
        ascending(samples).to_multiset() == samples.to_multiset(),
        ascending(samples).len() == samples.len(),
    decreases samples.len(),
{
    broadcast use vstd::seq_lib::group_to_multiset_ensures;

    if samples.len() > 0 {
        let first = samples[0];
        let rest = samples.skip(1);
        law_ascending_is_a_sorted_permutation(rest);
        lemma_placed(first, ascending(rest));
        vstd::seq_lib::lemma_multiset_commutative(seq![first], rest);
        assert(seq![first] =~= Seq::empty().push(first));
        assert(samples =~= seq![first] + rest);
        assert(ascending(samples).to_multiset() =~= samples.to_multiset());
    } else {
        assert(samples =~= Seq::empty());
    }
}

/// A summary is ordered, and each of its values is one of the samples; the
/// minimum and maximum bound them all.
pub proof fn law_percentiles_are_ordered_samples(samples: Seq<u64>)
    requires
        0 < samples.len() <= usize::MAX,
    ensures
        ({
            let summary = summarized(samples)->Some_0;
            &&& summarized(samples) is Some
            &&& summary.minimum <= summary.p50 <= summary.p95 <= summary.p99 <= summary.maximum
            &&& samples.contains(summary.minimum)
            &&& samples.contains(summary.p50)
            &&& samples.contains(summary.p95)
            &&& samples.contains(summary.p99)
            &&& samples.contains(summary.maximum)
            &&& forall|i: int|
                0 <= i < samples.len() ==> summary.minimum <= #[trigger] samples[i]
                    <= summary.maximum
        }),
{
    broadcast use vstd::seq_lib::group_to_multiset_ensures;

    let sorted = ascending(samples);
    let len = samples.len() as int;
    law_ascending_is_a_sorted_permutation(samples);
    assert(len * 50 <= len * 95 <= len * 99);
    assert(0 <= nearest_rank(len, 50) <= nearest_rank(len, 95) <= nearest_rank(len, 99) < len);
    assert forall|i: int| 0 <= i < len implies samples.contains(#[trigger] sorted[i]) by {
        assert(sorted.contains(sorted[i]));
        assert(sorted.to_multiset().count(sorted[i]) > 0);
    }
    assert forall|i: int| 0 <= i < len implies sorted[0] <= #[trigger] samples[i] <= sorted[len
        - 1] by {
        assert(samples.contains(samples[i]));
        assert(samples.to_multiset().count(samples[i]) > 0);
        let k = sorted.index_of(samples[i]);
        assert(sorted.contains(samples[i]));
    }
}

fn percentile(sorted: &Vec<u64>, percent: usize) -> (value: u64)
    requires
        0 < sorted@.len(),
        percent <= 100,
    ensures
        value == sorted@[nearest_rank(sorted@.len() as int, percent as int)],
{
    let len: usize = sorted.len();
    let numerator: usize = match len.checked_mul(percent) {
        Some(product) => product,
        None => usize::MAX,
    };
    let rank: usize = (numerator.saturating_add(99) / 100).saturating_sub(1);
    let last: usize = len - 1;
    if rank < last {
        sorted[rank]
    } else {
        sorted[last]
    }
}

proof fn lemma_placed_at(sample: u64, sorted: Seq<u64>, at: int)
    requires
        0 <= at <= sorted.len(),
        forall|i: int| 0 <= i < at ==> #[trigger] sorted[i] < sample,
        at < sorted.len() ==> sample <= sorted[at],
    ensures
        placed(sample, sorted) == sorted.insert(at, sample),
    decreases at,
{
    if at == 0 {
        assert(seq![sample] + sorted =~= sorted.insert(0, sample));
    } else {
        let rest = sorted.skip(1);
        assert(sorted[0] < sample);
        assert forall|i: int| 0 <= i < at - 1 implies #[trigger] rest[i] < sample by {
            assert(rest[i] == sorted[i + 1]);
        }
        lemma_placed_at(sample, rest, at - 1);
        assert(seq![sorted[0]] + rest.insert(at - 1, sample) =~= sorted.insert(at, sample));
    }
}

fn sorted_samples(samples: &[u64]) -> (sorted: Vec<u64>)
    ensures
        sorted@ == ascending(samples@),
{
    let mut sorted: Vec<u64> = Vec::new();
    let mut left: usize = samples.len();
    proof {
        assert(samples@.skip(left as int) =~= Seq::empty());
        assert(sorted@ =~= ascending(samples@.skip(left as int)));
    }
    while left > 0
        invariant
            left <= samples@.len(),
            sorted@ == ascending(samples@.skip(left as int)),
        decreases left,
    {
        left -= 1;
        let sample: u64 = samples[left];
        let ghost before = sorted@;
        let mut at: usize = 0;
        while at < sorted.len() && sorted[at] < sample
            invariant
                at <= sorted@.len(),
                before == sorted@,
                forall|i: int| 0 <= i < at ==> #[trigger] before[i] < sample,
            decreases sorted@.len() - at,
        {
            at += 1;
        }
        proof {
            lemma_placed_at(sample, before, at as int);
            assert(samples@.skip(left as int).skip(1) =~= samples@.skip(left + 1));
            assert(samples@.skip(left as int)[0] == sample);
        }
        sorted.insert(at, sample);
    }
    assert(samples@.skip(0) =~= samples@);
    sorted
}

impl Percentiles {
    /// Summarizes samples by nearest rank.
    pub fn from_samples(samples: &[u64]) -> (summary: Option<Percentiles>)
        ensures
            summary == summarized(samples@),
    {
        if samples.len() == 0 {
            return None;
        }
        let sorted: Vec<u64> = sorted_samples(samples);
        proof {
            law_ascending_is_a_sorted_permutation(samples@);
        }
        Some(
            Percentiles {
                count: sorted.len(),
                minimum: sorted[0],
                p50: percentile(&sorted, 50),
                p95: percentile(&sorted, 95),
                p99: percentile(&sorted, 99),
                maximum: sorted[sorted.len() - 1],
            },
        )
    }
}

/// Same-clock-domain stage summaries.
#[derive(Debug, Clone, Copy, PartialEq, Eq, Structural)]
pub struct TraceSummary {
    pub records: usize,
    pub rejected: u64,
    pub evicted: u64,
    pub host_capture_to_encode_ns: Option<Percentiles>,
    pub host_encode_ns: Option<Percentiles>,
    pub host_post_encode_queue_ns: Option<Percentiles>,
    pub client_receive_queue_ns: Option<Percentiles>,
    pub client_decode_ns: Option<Percentiles>,
    pub client_post_decode_queue_ns: Option<Percentiles>,
}

impl Default for TraceSummary {
    fn default() -> (summary: Self)
        ensures
            summary == (TraceSummary {
                records: 0,
                rejected: 0,
                evicted: 0,
                host_capture_to_encode_ns: None,
                host_encode_ns: None,
                host_post_encode_queue_ns: None,
                client_receive_queue_ns: None,
                client_decode_ns: None,
                client_post_decode_queue_ns: None,
            }),
    {
        TraceSummary {
            records: 0,
            rejected: 0,
            evicted: 0,
            host_capture_to_encode_ns: None,
            host_encode_ns: None,
            host_post_encode_queue_ns: None,
            client_receive_queue_ns: None,
            client_decode_ns: None,
            client_post_decode_queue_ns: None,
        }
    }
}

// ---------------------------------------------------------------------------
// Collector
// ---------------------------------------------------------------------------
/// The collector as mathematics sees it.
#[verifier::ext_equal]
pub struct CollectorView {
    pub max_records: usize,
    pub records: Seq<FrameTraceRecord>,
    pub rejected: u64,
    pub evicted: u64,
}

/// One record as a CSV line.
pub open spec fn csv_line(record: FrameTraceRecord) -> Seq<char> {
    decimal(record.host.frame_id as nat) + (","@ + decimal(record.host.capture_done_ns as nat))
        + (","@ + decimal(record.host.encode_begin_ns as nat)) + (","@ + decimal(
        record.host.encode_done_ns as nat,
    )) + (","@ + decimal(record.host.send_ns as nat)) + (","@ + decimal(
        record.client.receive_ns as nat,
    )) + (","@ + decimal(record.client.decode_begin_ns as nat)) + (","@ + decimal(
        record.client.decode_done_ns as nat,
    )) + (","@ + decimal(record.client.present_submit_ns as nat)) + (","@ + decimal(
        record.encoded_bytes as nat,
    )) + (","@ + decimal(record.datagrams as nat)) + (","@ + decimal(
        record.recovery_count as nat,
    )) + "\n"@
}

/// All records as CSV lines.
pub open spec fn csv_lines(records: Seq<FrameTraceRecord>) -> Seq<char>
    decreases records.len(),
{
    if records.len() == 0 {
        Seq::empty()
    } else {
        csv_lines(records.drop_last()) + csv_line(records.last())
    }
}

/// One record as a JSON object.
pub open spec fn json_record(record: FrameTraceRecord) -> Seq<char> {
    ("{\"frame_id\":"@ + decimal(record.host.frame_id as nat)) + (
    ",\"host\":{\"capture_done_ns\":"@ + decimal(record.host.capture_done_ns as nat)) + (
    ",\"encode_begin_ns\":"@ + decimal(record.host.encode_begin_ns as nat)) + (
    ",\"encode_done_ns\":"@ + decimal(record.host.encode_done_ns as nat)) + (",\"send_ns\":"@
        + decimal(record.host.send_ns as nat)) + ("},\"client\":{\"receive_ns\":"@ + decimal(
        record.client.receive_ns as nat,
    )) + (",\"decode_begin_ns\":"@ + decimal(record.client.decode_begin_ns as nat)) + (
    ",\"decode_done_ns\":"@ + decimal(record.client.decode_done_ns as nat)) + (
    ",\"present_submit_ns\":"@ + decimal(record.client.present_submit_ns as nat)) + (
    "},\"encoded_bytes\":"@ + decimal(record.encoded_bytes as nat)) + (",\"datagrams\":"@
        + decimal(record.datagrams as nat)) + (",\"recovery_count\":"@ + decimal(
        record.recovery_count as nat,
    )) + "}"@
}

/// All records as JSON objects, separated by commas.
pub open spec fn json_records(records: Seq<FrameTraceRecord>) -> Seq<char>
    decreases records.len(),
{
    if records.len() == 0 {
        Seq::empty()
    } else if records.len() == 1 {
        json_record(records[0])
    } else {
        json_records(records.drop_last()) + ","@ + json_record(records.last())
    }
}

impl CollectorView {
    /// The bound is kept and every record is valid.
    pub open spec fn is_valid(self) -> bool {
        &&& 0 < self.max_records
        &&& self.records.len() <= self.max_records
        &&& forall|i: int|
            0 <= i < self.records.len() ==> (#[trigger] self.records[i]).is_valid()
    }

    /// Takes a record; the oldest leaves when there is no room.
    pub open spec fn pushing(self, record: FrameTraceRecord) -> (
        CollectorView,
        TracePushOutcome,
    ) {
        if !record.is_valid() {
            (
                CollectorView { rejected: raised(self.rejected, 1), ..self },
                TracePushOutcome::RejectedNonMonotonic,
            )
        } else if self.records.len() == self.max_records {
            (
                CollectorView {
                    records: self.records.skip(1).push(record),
                    evicted: raised(self.evicted, 1),
                    ..self
                },
                TracePushOutcome::EvictedOldest,
            )
        } else {
            (
                CollectorView { records: self.records.push(record), ..self },
                TracePushOutcome::Inserted,
            )
        }
    }

    /// The CSV export.
    pub open spec fn csv(self) -> Seq<char> {
        "frame_id,host_capture_done_ns,host_encode_begin_ns,host_encode_done_ns,host_send_ns,client_receive_ns,client_decode_begin_ns,client_decode_done_ns,client_present_submit_ns,encoded_bytes,datagrams,recovery_count\n"@
            + csv_lines(self.records)
    }

    /// The JSON export.
    pub open spec fn json(self) -> Seq<char> {
        "{\"schema\":1,\"clock_domains\":\"host_and_client_separate\",\"records\":["@
            + json_records(self.records) + ("],\"rejected\":"@ + decimal(self.rejected as nat)) + (
        ",\"evicted\":"@ + decimal(self.evicted as nat)) + "}"@
    }

    /// The stage summaries.
    pub open spec fn summary(self) -> TraceSummary {
        TraceSummary {
            records: self.records.len() as usize,
            rejected: self.rejected,
            evicted: self.evicted,
            host_capture_to_encode_ns: summarized(
                self.records.map_values(
                    |record: FrameTraceRecord| record.host.stages().capture_to_encode_ns,
                ),
            ),
            host_encode_ns: summarized(
                self.records.map_values(|record: FrameTraceRecord| record.host.stages().encode_ns),
            ),
            host_post_encode_queue_ns: summarized(
                self.records.map_values(
                    |record: FrameTraceRecord| record.host.stages().post_encode_queue_ns,
                ),
            ),
            client_receive_queue_ns: summarized(
                self.records.map_values(
                    |record: FrameTraceRecord| record.client.stages().receive_queue_ns,
                ),
            ),
            client_decode_ns: summarized(
                self.records.map_values(|record: FrameTraceRecord| record.client.stages().decode_ns),
            ),
            client_post_decode_queue_ns: summarized(
                self.records.map_values(
                    |record: FrameTraceRecord| record.client.stages().post_decode_queue_ns,
                ),
            ),
        }
    }
}

/// Explicitly bounded trace collector with dependency-free CSV and JSON output.
#[derive(Debug)]
pub struct TraceCollector {
    max_records: usize,
    records: VecDeque<FrameTraceRecord>,
    rejected: u64,
    evicted: u64,
}

impl View for TraceCollector {
    type V = CollectorView;

    closed spec fn view(&self) -> CollectorView {
        CollectorView {
            max_records: self.max_records,
            records: self.records@,
            rejected: self.rejected,
            evicted: self.evicted,
        }
    }
}

fn push_csv_line(output: &mut String, record: FrameTraceRecord)
    ensures
        final(output)@ == old(output)@ + csv_line(record),
{
    push_decimal(output, record.host.frame_id);
    push_field(output, ",", record.host.capture_done_ns);
    push_field(output, ",", record.host.encode_begin_ns);
    push_field(output, ",", record.host.encode_done_ns);
    push_field(output, ",", record.host.send_ns);
    push_field(output, ",", record.client.receive_ns);
    push_field(output, ",", record.client.decode_begin_ns);
    push_field(output, ",", record.client.decode_done_ns);
    push_field(output, ",", record.client.present_submit_ns);
    push_field(output, ",", record.encoded_bytes);
    push_field(output, ",", record.datagrams as u64);
    push_field(output, ",", record.recovery_count as u64);
    push_text(output, "\n");
    assert(output@ =~= old(output)@ + csv_line(record));
}

fn push_json_record(output: &mut String, record: FrameTraceRecord)
    ensures
        final(output)@ == old(output)@ + json_record(record),
{
    push_field(output, "{\"frame_id\":", record.host.frame_id);
    push_field(output, ",\"host\":{\"capture_done_ns\":", record.host.capture_done_ns);
    push_field(output, ",\"encode_begin_ns\":", record.host.encode_begin_ns);
    push_field(output, ",\"encode_done_ns\":", record.host.encode_done_ns);
    push_field(output, ",\"send_ns\":", record.host.send_ns);
    push_field(output, "},\"client\":{\"receive_ns\":", record.client.receive_ns);
    push_field(output, ",\"decode_begin_ns\":", record.client.decode_begin_ns);
    push_field(output, ",\"decode_done_ns\":", record.client.decode_done_ns);
    push_field(output, ",\"present_submit_ns\":", record.client.present_submit_ns);
    push_field(output, "},\"encoded_bytes\":", record.encoded_bytes);
    push_field(output, ",\"datagrams\":", record.datagrams as u64);
    push_field(output, ",\"recovery_count\":", record.recovery_count as u64);
    push_text(output, "}");
    assert(output@ =~= old(output)@ + json_record(record));
}

impl TraceCollector {
    /// A collector that keeps the newest `max_records` records.
    pub fn new(max_records: usize) -> (collector: Self)
        requires
            0 < max_records,
        ensures
            collector@ == (CollectorView {
                max_records,
                records: Seq::empty(),
                rejected: 0,
                evicted: 0,
            }),
            collector@.is_valid(),
    {
        let capacity: usize = if max_records < 4_096 {
            max_records
        } else {
            4_096
        };
        TraceCollector {
            max_records,
            records: VecDeque::with_capacity(capacity),
            rejected: 0,
            evicted: 0,
        }
    }

    /// Adds a record.
    pub fn push(&mut self, record: FrameTraceRecord) -> (outcome: TracePushOutcome)
        requires
            old(self)@.is_valid(),
        ensures
            final(self)@.is_valid(),
            (final(self)@, outcome) == old(self)@.pushing(record),
    {
        if !record.valid() {
            self.rejected = self.rejected.saturating_add(1);
            return TracePushOutcome::RejectedNonMonotonic;
        }
        let ghost before = self.records@;
        let outcome = if self.records.len() == self.max_records {
            let _oldest = self.records.pop_front();
            self.evicted = self.evicted.saturating_add(1);
            assert(self.records@ =~= before.skip(1));
            TracePushOutcome::EvictedOldest
        } else {
            TracePushOutcome::Inserted
        };
        self.records.push_back(record);
        outcome
    }

    /// Number of records held.
    pub fn len(&self) -> (len: usize)
        ensures
            len == self@.records.len(),
    {
        self.records.len()
    }

    /// Whether no record is held.
    pub fn is_empty(&self) -> (empty: bool)
        ensures
            empty == (self@.records.len() == 0),
    {
        self.records.len() == 0
    }

    /// Records refused so far.
    pub fn rejected(&self) -> (rejected: u64)
        ensures
            rejected == self@.rejected,
    {
        self.rejected
    }

    /// Records that made room for newer ones.
    pub fn evicted(&self) -> (evicted: u64)
        ensures
            evicted == self@.evicted,
    {
        self.evicted
    }

    /// Exports all records as CSV.
    pub fn to_csv(&self) -> (output: String)
        ensures
            output@ == self@.csv(),
    {
        let mut output = String::from_str(
            "frame_id,host_capture_done_ns,host_encode_begin_ns,host_encode_done_ns,host_send_ns,client_receive_ns,client_decode_begin_ns,client_decode_done_ns,client_present_submit_ns,encoded_bytes,datagrams,recovery_count\n",
        );
        let ghost title = output@;
        let ghost records = self.records@;
        let mut index: usize = 0;
        proof {
            assert(records.take(0) =~= Seq::empty());
            assert(output@ =~= title + csv_lines(records.take(0)));
        }
        while index < self.records.len()
            invariant
                index <= records.len(),
                records == self.records@,
                output@ == title + csv_lines(records.take(index as int)),
            decreases records.len() - index,
        {
            push_csv_line(&mut output, self.records[index]);
            proof {
                let longer = records.take(index + 1);
                assert(longer.drop_last() =~= records.take(index as int));
                assert(output@ =~= title + csv_lines(longer));
            }
            index += 1;
        }
        assert(records.take(index as int) =~= records);
        output
    }

    /// Exports all records as JSON.
    pub fn to_json(&self) -> (output: String)
        ensures
            output@ == self@.json(),
    {
        let mut output = String::from_str(
            "{\"schema\":1,\"clock_domains\":\"host_and_client_separate\",\"records\":[",
        );
        let ghost title = output@;
        let ghost records = self.records@;
        let mut index: usize = 0;
        proof {
            assert(records.take(0) =~= Seq::empty());
            assert(output@ =~= title + json_records(records.take(0)));
        }
        while index < self.records.len()
            invariant
                index <= records.len(),
                records == self.records@,
                output@ == title + json_records(records.take(index as int)),
            decreases records.len() - index,
        {
            if index != 0 {
                push_text(&mut output, ",");
            }
            push_json_record(&mut output, self.records[index]);
            proof {
                let longer = records.take(index + 1);
                assert(longer.drop_last() =~= records.take(index as int));
                if index == 0 {
                    assert(json_records(records.take(0)) =~= Seq::<char>::empty());
                }
                assert(output@ =~= title + json_records(longer));
            }
            index += 1;
        }
        assert(records.take(index as int) =~= records);
        push_field(&mut output, "],\"rejected\":", self.rejected);
        push_field(&mut output, ",\"evicted\":", self.evicted);
        push_text(&mut output, "}");
        output
    }

    /// Summarizes every stage.
    pub fn summary(&self) -> (summary: TraceSummary)
        requires
            self@.is_valid(),
        ensures
            summary == self@.summary(),
    {
        let mut host_capture_to_encode: Vec<u64> = Vec::new();
        let mut host_encode: Vec<u64> = Vec::new();
        let mut host_post_encode_queue: Vec<u64> = Vec::new();
        let mut client_receive_queue: Vec<u64> = Vec::new();
        let mut client_decode: Vec<u64> = Vec::new();
        let mut client_post_decode_queue: Vec<u64> = Vec::new();
        let ghost records = self.records@;
        let mut index: usize = 0;
        while index < self.records.len()
            invariant
                index <= records.len(),
                records == self.records@,
                forall|i: int| 0 <= i < records.len() ==> (#[trigger] records[i]).is_valid(),
                host_capture_to_encode@.len() == index,
                host_encode@.len() == index,
                host_post_encode_queue@.len() == index,
                client_receive_queue@.len() == index,
                client_decode@.len() == index,
                client_post_decode_queue@.len() == index,
                forall|i: int|
                    0 <= i < index ==> {
                        let host = (#[trigger] records[i]).host.stages();
                        let client = records[i].client.stages();
                        &&& host_capture_to_encode@[i] == host.capture_to_encode_ns
                        &&& host_encode@[i] == host.encode_ns
                        &&& host_post_encode_queue@[i] == host.post_encode_queue_ns
                        &&& client_receive_queue@[i] == client.receive_queue_ns
                        &&& client_decode@[i] == client.decode_ns
                        &&& client_post_decode_queue@[i] == client.post_decode_queue_ns
                    },
            decreases records.len() - index,
        {
            let record: FrameTraceRecord = self.records[index];
            assert(records[index as int].is_valid());
            match (record.host.durations(), record.client.durations()) {
                (Some(host), Some(client)) => {
                    host_capture_to_encode.push(host.capture_to_encode_ns);
                    host_encode.push(host.encode_ns);
                    host_post_encode_queue.push(host.post_encode_queue_ns);
                    client_receive_queue.push(client.receive_queue_ns);
                    client_decode.push(client.decode_ns);
                    client_post_decode_queue.push(client.post_decode_queue_ns);
                },
                _ => {
                    assert(false);
                },
            }
            index += 1;
        }
        proof {
            assert(host_capture_to_encode@ =~= records.map_values(
                |record: FrameTraceRecord| record.host.stages().capture_to_encode_ns,
            ));
            assert(host_encode@ =~= records.map_values(
                |record: FrameTraceRecord| record.host.stages().encode_ns,
            ));
            assert(host_post_encode_queue@ =~= records.map_values(
                |record: FrameTraceRecord| record.host.stages().post_encode_queue_ns,
            ));
            assert(client_receive_queue@ =~= records.map_values(
                |record: FrameTraceRecord| record.client.stages().receive_queue_ns,
            ));
            assert(client_decode@ =~= records.map_values(
                |record: FrameTraceRecord| record.client.stages().decode_ns,
            ));
            assert(client_post_decode_queue@ =~= records.map_values(
                |record: FrameTraceRecord| record.client.stages().post_decode_queue_ns,
            ));
        }
        TraceSummary {
            records: self.records.len(),
            rejected: self.rejected,
            evicted: self.evicted,
            host_capture_to_encode_ns: Percentiles::from_samples(
                host_capture_to_encode.as_slice(),
            ),
            host_encode_ns: Percentiles::from_samples(host_encode.as_slice()),
            host_post_encode_queue_ns: Percentiles::from_samples(
                host_post_encode_queue.as_slice(),
            ),
            client_receive_queue_ns: Percentiles::from_samples(client_receive_queue.as_slice()),
            client_decode_ns: Percentiles::from_samples(client_decode.as_slice()),
            client_post_decode_queue_ns: Percentiles::from_samples(
                client_post_decode_queue.as_slice(),
            ),
        }
    }
}

/// The collector after a run of records.
pub open spec fn after_records(view: CollectorView, records: Seq<FrameTraceRecord>) -> CollectorView
    decreases records.len(),
{
    if records.len() == 0 {
        view
    } else {
        after_records(view, records.drop_last()).pushing(records.last()).0
    }
}

/// The last `count` elements.
pub open spec fn newest(records: Seq<FrameTraceRecord>, count: int) -> Seq<FrameTraceRecord> {
    if records.len() <= count {
        records
    } else {
        records.skip(records.len() - count)
    }
}

/// An empty collector that is given valid records holds exactly the newest
/// ones, in order, as many as it may hold.
pub proof fn law_collector_keeps_the_newest(view: CollectorView, records: Seq<FrameTraceRecord>)
    requires
        0 < view.max_records,
        view.records.len() == 0,
        forall|i: int| 0 <= i < records.len() ==> (#[trigger] records[i]).is_valid(),
    ensures
        after_records(view, records).records == newest(records, view.max_records as int),
        after_records(view, records).max_records == view.max_records,
    decreases records.len(),
{
    if records.len() == 0 {
        assert(view.records =~= records);
    } else {
        let front = records.drop_last();
        assert forall|i: int| 0 <= i < front.len() implies (#[trigger] front[i]).is_valid() by {
            assert(front[i] == records[i]);
        }
        law_collector_keeps_the_newest(view, front);
        assert(records[records.len() - 1].is_valid());
        let held = after_records(view, front);
        assert(held.pushing(records.last()).0.records =~= newest(
            records,
            view.max_records as int,
        ));
    }
}

} // verus!
