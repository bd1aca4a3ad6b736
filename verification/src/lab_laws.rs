//! What a laboratory run does with frames and datagrams, in plain terms.

use crate::chars::occurs;
use crate::counter::raised;
use crate::lab::{
    escaped, escaped_char, lab_packet, manifest_text, submitting_from, summary_text, ArrivalView,
    FrameOutcome, LabConfig, LabError, LabReport, LabView, LabWire, LINK_SEED_MASK, MAX_LAB_TRACES, PACKET_IDS_PER_FRAME,
};
use crate::reassembly::OutcomeView;
use crate::simulator::SimulatorView;
use crate::telemetry::{FrameTraceRecord, TraceSummary};
use crate::text::truth;
use crate::text_laws::{
    lemma_found_at_the_end, lemma_found_in_the_front, lemma_found_whole, says,
};
use vstd::prelude::*;

verus! {

/// A run keeps a hundred thousand traces, numbers a million packets of each
/// frame, and gives the link a seed of its own.
pub proof fn law_run_limits()
    ensures
        MAX_LAB_TRACES == 100_000,
        PACKET_IDS_PER_FRAME == 1_000_000,
        LINK_SEED_MASK == 2_779_077_210,
{
}

/// A run is configured exactly if it has a frame with an area, frames come at
/// an interval, each may take longer than that, and the link is in order.
pub proof fn law_runs_with_frames_are_configured(config: LabConfig)
    ensures
        config.is_shaped() <==> (config.frames >= 1 && config.width >= 1 && config.height >= 1
            && config.frame_interval_ns >= 1 && config.frame_deadline_ns
            >= config.frame_interval_ns + 1),
        config.is_valid() <==> (config.is_shaped() && config.network.is_valid()),
{
}

/// Frames are sent one interval apart, each may arrive until its deadline, and
/// is waited for as long as the link delays it. The run ends after the deadline
/// of one more frame.
pub proof fn law_frames_keep_their_times(config: LabConfig, frame_id: u64)
    ensures
        ({
            let sent = frame_id * config.frame_interval_ns;
            let due = sent + config.frame_deadline_ns;
            &&& sent <= u64::MAX ==> config.send_time(frame_id) == sent
            &&& due <= u64::MAX ==> config.deadline(frame_id) == due
            &&& due + config.network.base_delay_ns <= u64::MAX ==> config.poll_until(frame_id)
                == due + config.network.base_delay_ns
            &&& config.frames * config.frame_interval_ns + config.frame_deadline_ns + 1
                <= u64::MAX ==> config.final_time() == config.frames * config.frame_interval_ns
                + config.frame_deadline_ns + 1
        }),
        config.send_time(0) == 0,
{
    assert(frame_id * config.frame_interval_ns >= 0) by (nonlinear_arith);
    assert(config.frames * config.frame_interval_ns >= 0) by (nonlinear_arith);
    assert(0 * config.frame_interval_ns == 0) by (nonlinear_arith);
}

/// Every frame is video on stream one at the first codec epoch and depends on
/// no other.
pub proof fn law_frames_stand_alone(wire: LabWire, frame_id: u64)
    ensures
        ({
            let spec = wire.spec_of(frame_id);
            &&& spec.kind == wire.video_kind
            &&& spec.flags == wire.frame_flags
            &&& spec.stream_id == 1
            &&& spec.codec_epoch == 1
            &&& spec.frame_id == frame_id
            &&& spec.dependency_frame_id is None
        }),
{
}

/// Every datagram of a frame is sent as media at the time of the frame, and is
/// due at its deadline. No two datagrams of a run have one number.
pub proof fn law_datagrams_are_numbered(
    config: LabConfig,
    frame_id: u64,
    index: nat,
    other_frame: u64,
    other_index: nat,
    datagram: Seq<u8>,
)
    requires
        index < 1_000_000,
        other_index < 1_000_000,
        frame_id * 1_000_000 + index <= u64::MAX,
        other_frame * 1_000_000 + other_index <= u64::MAX,
    ensures
        ({
            let packet = lab_packet(config, frame_id, index as int, datagram);
            let other = lab_packet(config, other_frame, other_index as int, datagram);
            &&& packet.id == frame_id * 1_000_000 + index
            &&& packet.lane is RealtimeMedia
            &&& packet.send_ns == config.send_time(frame_id)
            &&& packet.deadline_ns == config.deadline(frame_id)
            &&& packet.bytes == datagram
            &&& packet.id == other.id ==> frame_id == other_frame && index == other_index
        }),
{
}

/// The datagrams of a frame are handed to the link one after the other, and no
/// more after one that the link refuses.
pub proof fn law_datagrams_are_submitted_in_order(
    network: SimulatorView,
    config: LabConfig,
    frame_id: u64,
    datagrams: Seq<Seq<u8>>,
    index: int,
)
    requires
        0 <= index <= datagrams.len(),
        frame_id * 1_000_000 + datagrams.len() <= u64::MAX,
    ensures
        index == datagrams.len() ==> submitting_from(network, config, frame_id, datagrams, index)
            == (network, Ok::<(), LabError>(())),
        index < datagrams.len() ==> {
            let step = network.submitting(lab_packet(config, frame_id, index, datagrams[index]));
            &&& step.1 is Ok ==> submitting_from(network, config, frame_id, datagrams, index)
                == submitting_from(step.0, config, frame_id, datagrams, index + 1)
            &&& step.1 is Err ==> submitting_from(network, config, frame_id, datagrams, index) == (
                step.0,
                Err::<(), LabError>(LabError::Transport(step.1->Err_0)),
            )
        },
{
}

/// A datagram that arrives goes to reassembly. The bytes of the frame that is
/// awaited are handed on when it completes, those of another are not, and a
/// datagram that reassembly refuses is counted.
pub proof fn law_awaited_frame_is_found(view: LabView, frame_id: u64, arrival: ArrivalView)
    ensures
        ({
            let inner = view.reassembler.ingesting(
                arrival.datagram_len,
                arrival.packet,
                arrival.delivery_ns,
            );
            let step = view.receiving(frame_id, arrival);
            &&& step.0 == (LabView {
                reassembler: inner.0,
                malformed: step.0.malformed,
                ..view
            })
            &&& inner.1 is Ok ==> step.0.malformed == view.malformed
            &&& inner.1 is Err ==> step.0.malformed == raised(view.malformed, 1) && step.1 is None
            &&& inner.1 matches Ok(OutcomeView::Complete { header, bytes, .. }) ==> step.1 == (
            if header.frame_id == frame_id {
                Some(bytes)
            } else {
                None
            })
            &&& inner.1 is Ok && !(inner.1->Ok_0 is Complete) ==> step.1 is None
        }),
{
}

/// Of all that arrives, what was found last counts, and nothing found before is
/// forgotten.
pub proof fn law_arrivals_are_taken_in_order(
    view: LabView,
    frame_id: u64,
    first: ArrivalView,
    rest: Seq<ArrivalView>,
    found: Option<Seq<u8>>,
)
    ensures
        view.receiving_all(frame_id, Seq::empty(), found) == (view, found),
        view.receiving_all(frame_id, seq![first] + rest, found) == (match view.receiving(
            frame_id,
            first,
        ).1 {
            Some(bytes) => view.receiving(frame_id, first).0.receiving_all(
                frame_id,
                rest,
                Some(bytes),
            ),
            None => view.receiving(frame_id, first).0.receiving_all(frame_id, rest, found),
        }),
{
    assert((seq![first] + rest).skip(1) =~= rest);
}

/// A frame that never completed counts as incomplete, one that cannot be
/// decoded or differs as a mismatch, and only one that came out exactly as
/// completed. Those that were decoded leave a trace.
pub proof fn law_only_exact_frames_are_completed(view: LabView, record: FrameTraceRecord)
    ensures
        view.concluding(FrameOutcome::Incomplete) == (LabView {
            incomplete: raised(view.incomplete, 1),
            ..view
        }),
        view.concluding(FrameOutcome::Undecodable) == (LabView {
            mismatches: raised(view.mismatches, 1),
            ..view
        }),
        view.concluding(FrameOutcome::Decoded { is_exact: true, record }) == (LabView {
            traces: view.traces.pushing(record).0,
            completed: raised(view.completed, 1),
            ..view
        }),
        view.concluding(FrameOutcome::Decoded { is_exact: false, record }) == (LabView {
            traces: view.traces.pushing(record).0,
            mismatches: raised(view.mismatches, 1),
            ..view
        }),
{
}

/// The report shows each counter under its name.
pub proof fn law_report_shows_every_counter(view: LabView, input_passed: bool)
    requires
        view.traces.records.len() <= usize::MAX,
    ensures
        ({
            let report = view.report(input_passed);
            let reassembled = view.reassembler.expired(view.config.final_time()).stats;
            &&& report.submitted_frames == view.config.frames
            &&& report.completed_frames == view.completed
            &&& report.incomplete_frames == view.incomplete
            &&& report.corrupt_or_malformed_datagrams == view.malformed
            &&& report.exact_mismatches == view.mismatches
            &&& report.input_reconciliation_passed == input_passed
            &&& report.network_submitted == view.network.stats.submitted
            &&& report.network_delivered == view.network.stats.delivered
            &&& report.network_lost == view.network.stats.lost
            &&& report.network_expired == view.network.stats.expired
            &&& report.network_corrupted == view.network.stats.corrupted
            &&& report.reassembly_completed == view.reassembler.stats.frames_completed
            &&& report.reassembly_expired == reassembled.frames_expired
            &&& report.trace_records == view.traces.records.len()
        }),
{
}

/// Quotes, backslashes and line ends are escaped, other control characters
/// become question marks, and everything else stays.
pub proof fn law_texts_are_escaped(c: char)
    ensures
        c == '"' ==> escaped_char(c) == seq!['\\', '"'],
        c == '\\' ==> escaped_char(c) == seq!['\\', '\\'],
        c == '\n' ==> escaped_char(c) == seq!['\\', 'n'],
        c == '\r' ==> escaped_char(c) == seq!['\\', 'r'],
        c == '\t' ==> escaped_char(c) == seq!['\\', 't'],
        c != '\n' && c != '\r' && c != '\t' && (c as u32 <= 31 || 127 <= c as u32 <= 159)
            ==> escaped_char(c) == seq!['?'],
        c != '"' && c != '\\' && (32 <= c as u32 <= 126 || c as u32 >= 160) ==> escaped_char(c)
            == seq![c],
{
    reveal_strlit("\\\"");
    reveal_strlit("\\\\");
    reveal_strlit("\\n");
    reveal_strlit("\\r");
    reveal_strlit("\\t");
    reveal_strlit("?");
    assert("\\\""@ =~= seq!['\\', '"']);
    assert("\\\\"@ =~= seq!['\\', '\\']);
    assert("\\n"@ =~= seq!['\\', 'n']);
    assert("\\r"@ =~= seq!['\\', 'r']);
    assert("\\t"@ =~= seq!['\\', 't']);
    assert("?"@ =~= seq!['?']);
}

/// A text is escaped character by character.
pub proof fn law_escaping_keeps_the_order(first: Seq<char>, second: Seq<char>)
    ensures
        escaped(first + second) == escaped(first) + escaped(second),
    decreases second.len(),
{
    if second.len() == 0 {
        assert(first + second =~= first);
        assert(escaped(first) + escaped(second) =~= escaped(first));
    } else {
        law_escaping_keeps_the_order(first, second.drop_last());
        assert((first + second).drop_last() =~= first + second.drop_last());
        assert(escaped(first + second) =~= escaped(first) + escaped(second));
    }
}

/// The result of a run is written with each counter behind its own key.
pub proof fn law_result_names_every_counter(report: LabReport, summary: TraceSummary)
    ensures
        ({
            let text = summary_text(report, summary);
            &&& says(text, "{\"submitted_frames\":"@, report.submitted_frames as nat)
            &&& says(text, ",\"completed_frames\":"@, report.completed_frames as nat)
            &&& says(text, ",\"incomplete_frames\":"@, report.incomplete_frames as nat)
            &&& says(text, ",\"exact_mismatches\":"@, report.exact_mismatches as nat)
            &&& says(
                text,
                ",\"malformed_datagrams\":"@,
                report.corrupt_or_malformed_datagrams as nat,
            )
            &&& says(text, ",\"network\":{\"submitted\":"@, report.network_submitted as nat)
            &&& says(text, ",\"delivered\":"@, report.network_delivered as nat)
            &&& says(text, ",\"lost\":"@, report.network_lost as nat)
            &&& says(text, ",\"expired\":"@, report.network_expired as nat)
            &&& says(text, ",\"corrupted\":"@, report.network_corrupted as nat)
            &&& says(text, "},\"reassembly\":{\"completed\":"@, report.reassembly_completed as nat)
            &&& says(text, ",\"expired\":"@, report.reassembly_expired as nat)
            &&& says(text, "},\"trace_records\":"@, summary.records as nat)
            &&& says(text, ",\"trace_rejected\":"@, summary.rejected as nat)
            &&& says(text, ",\"trace_evicted\":"@, summary.evicted as nat)
            &&& occurs(text, ",\"input_reconciliation_passed\":"@)
            &&& occurs(text, truth(report.input_reconciliation_passed))
        }),
{
    broadcast use {lemma_found_in_the_front, lemma_found_at_the_end, lemma_found_whole};

}

/// The manifest of a run is written with each setting behind its own key, the
/// revision, and the result.
pub proof fn law_manifest_names_every_setting(
    config: LabConfig,
    report: LabReport,
    summary: TraceSummary,
    commit: Seq<char>,
)
    ensures
        ({
            let text = manifest_text(config, report, summary, commit);
            let network = config.network;
            &&& occurs(text, escaped(commit))
            &&& occurs(text, summary_text(report, summary))
            &&& says(text, "\",\"config\":{\"frames\":"@, config.frames as nat)
            &&& says(text, ",\"width\":"@, config.width as nat)
            &&& says(text, ",\"height\":"@, config.height as nat)
            &&& says(text, ",\"max_datagram_bytes\":"@, config.max_datagram_bytes as nat)
            &&& says(text, ",\"frame_interval_ns\":"@, config.frame_interval_ns as nat)
            &&& says(text, ",\"frame_deadline_ns\":"@, config.frame_deadline_ns as nat)
            &&& says(text, ",\"seed\":"@, config.seed as nat)
            &&& says(text, ",\"network\":{\"base_delay_ns\":"@, network.base_delay_ns as nat)
            &&& says(text, ",\"jitter_ns\":"@, network.jitter_ns as nat)
            &&& says(text, ",\"bandwidth_bps\":"@, network.bandwidth_bps as nat)
            &&& says(text, ",\"loss_per_million\":"@, network.loss_per_million as nat)
            &&& says(text, ",\"duplicate_per_million\":"@, network.duplicate_per_million as nat)
            &&& says(text, ",\"reorder_per_million\":"@, network.reorder_per_million as nat)
            &&& says(text, ",\"corrupt_per_million\":"@, network.corrupt_per_million as nat)
        }),
{
    broadcast use {lemma_found_in_the_front, lemma_found_at_the_end, lemma_found_whole};

}

} // verus!
