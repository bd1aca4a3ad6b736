//! A deterministic end-to-end laboratory: capture, exact encode, fragment,
//! hostile link, reassemble, exact decode.
//!
//! The surrounding program captures and decodes frames, encodes and decodes
//! datagrams, and reads the clock. Everything that decides the outcome of a
//! run is here.

use crate::bytes::bytes_equal;
use crate::codec::{CodecError, FrameError};
use crate::counter::{multiply_u64, raised};
use crate::error::{ProtocolError, TransportError};
use crate::fragment::{
    fragment_frame, fragmented, FragmentSpec, DEFAULT_MAX_DATAGRAM_BYTES,
};
use crate::media::{MediaPacket, MediaWire, PacketView};
use crate::product::empty_reassembler;
use crate::reassembly::{
    decoded_view, default_caps, IngestOutcome, OutcomeView, Reassembler, ReassemblerView,
    ReassemblyConfig, ReassemblyStats,
};
use crate::simulator::{
    delivered_views, DeliveredPacket, NetworkLane, NetworkProfile, NetworkSimulator, NetworkStats,
    SimPacket, SimPacketView, SimulatorView,
};
use crate::telemetry::{
    ClientFrameTrace, CollectorView, FrameTraceRecord, HostFrameTrace, TraceCollector, TraceSummary,
};
use crate::text::{decimal, push_decimal, push_field, push_text, push_truth, truth};
use std::collections::VecDeque;
use vstd::prelude::*;
use vstd::string::*;

verus! {

/// Trace records that one run keeps at most.
pub const MAX_LAB_TRACES: u64 = 100_000;

/// Packet ids of one frame start at its number times this.
pub const PACKET_IDS_PER_FRAME: u64 = 1_000_000;

/// What the seed of the link is mixed with.
pub const LINK_SEED_MASK: u64 = 0xa5a5_5a5a;

/// Why a run fails.
#[derive(Debug, Clone, Copy, PartialEq, Eq, Structural)]
pub enum LabError {
    InvalidConfig,
    Arithmetic,
    Frame(FrameError),
    Codec(CodecError),
    Protocol(ProtocolError),
    Transport(TransportError),
    /// The input layer refused a message, by its own number.
    Input(u16),
}

/// Reproducible laboratory configuration.
#[derive(Debug, Clone, Copy, PartialEq, Eq, Structural)]
pub struct LabConfig {
    pub frames: u64,
    pub width: u32,
    pub height: u32,
    pub max_datagram_bytes: usize,
    pub frame_interval_ns: u64,
    pub frame_deadline_ns: u64,
    pub network: NetworkProfile,
    pub seed: u64,
}

impl Default for LabConfig {
    fn default() -> (config: Self)
        ensures
            config.frames == 120,
            config.width == 320,
            config.height == 180,
            config.max_datagram_bytes == DEFAULT_MAX_DATAGRAM_BYTES,
            config.frame_interval_ns == 16_666_667,
            config.frame_deadline_ns == 250_000_000,
            config.seed == 0x4c44_534b_0000_0001,
            config.is_valid(),
    {
        LabConfig {
            frames: 120,
            width: 320,
            height: 180,
            max_datagram_bytes: DEFAULT_MAX_DATAGRAM_BYTES,
            frame_interval_ns: 16_666_667,
            frame_deadline_ns: 250_000_000,
            network: NetworkProfile::default(),
            seed: 0x4c44_534b_0000_0001,
        }
    }
}

impl LabConfig {
    /// There are frames with an area, and a deadline beyond the interval.
    pub open spec fn is_shaped(self) -> bool {
        &&& self.frames > 0
        &&& self.width > 0
        &&& self.height > 0
        &&& self.frame_interval_ns > 0
        &&& self.frame_deadline_ns > self.frame_interval_ns
    }

    /// A run can start.
    pub open spec fn is_valid(self) -> bool {
        self.is_shaped() && self.network.is_valid()
    }

    /// When frame number `frame_id` is sent.
    pub open spec fn send_time(self, frame_id: u64) -> u64 {
        if frame_id * self.frame_interval_ns > u64::MAX {
            u64::MAX
        } else {
            (frame_id * self.frame_interval_ns) as u64
        }
    }

    /// When frame number `frame_id` is of no use any more.
    pub open spec fn deadline(self, frame_id: u64) -> u64 {
        raised(self.send_time(frame_id), self.frame_deadline_ns as int)
    }

    /// Until when the receiver waits for frame number `frame_id`.
    pub open spec fn poll_until(self, frame_id: u64) -> u64 {
        raised(self.deadline(frame_id), self.network.base_delay_ns as int)
    }

    /// When every incomplete frame is too old.
    pub open spec fn final_time(self) -> u64 {
        raised(raised(self.send_time(self.frames), self.frame_deadline_ns as int), 1)
    }

    /// Accepts a run that can start.
    pub fn validate(self) -> (result: Result<(), LabError>)
        ensures
            result == (if !self.is_shaped() {
                Err::<(), LabError>(LabError::InvalidConfig)
            } else if !self.network.is_valid() {
                Err::<(), LabError>(LabError::Transport(TransportError::InvalidNetworkProfile))
            } else {
                Ok::<(), LabError>(())
            }),
    {
        if self.frames == 0 || self.width == 0 || self.height == 0 || self.frame_interval_ns == 0
            || self.frame_deadline_ns <= self.frame_interval_ns {
            return Err(LabError::InvalidConfig);
        }
        match self.network.validate() {
            Ok(()) => Ok(()),
            Err(error) => Err(LabError::Transport(error)),
        }
    }

    /// When frame number `frame_id` is captured and sent.
    pub fn send_time_ns(self, frame_id: u64) -> (time_ns: u64)
        ensures
            time_ns == self.send_time(frame_id),
    {
        multiply_u64(frame_id, self.frame_interval_ns)
    }

    /// When frame number `frame_id` is of no use any more.
    pub fn deadline_ns(self, frame_id: u64) -> (time_ns: u64)
        ensures
            time_ns == self.deadline(frame_id),
    {
        self.send_time_ns(frame_id).saturating_add(self.frame_deadline_ns)
    }

    /// Until when the receiver waits for frame number `frame_id`.
    pub fn poll_until_ns(self, frame_id: u64) -> (time_ns: u64)
        ensures
            time_ns == self.poll_until(frame_id),
    {
        self.deadline_ns(frame_id).saturating_add(self.network.base_delay_ns)
    }
}

/// Observable laboratory result.
#[derive(Debug, Clone, Copy, PartialEq, Eq, Structural)]
pub struct LabReport {
    pub submitted_frames: u64,
    pub completed_frames: u64,
    pub incomplete_frames: u64,
    pub corrupt_or_malformed_datagrams: u64,
    pub exact_mismatches: u64,
    pub input_reconciliation_passed: bool,
    pub network_submitted: u64,
    pub network_delivered: u64,
    pub network_lost: u64,
    pub network_expired: u64,
    pub network_corrupted: u64,
    pub reassembly_completed: u64,
    pub reassembly_expired: u64,
    pub trace_records: usize,
}

impl LabReport {
    /// Whether every frame came through exactly.
    pub fn lossless_passed(self) -> (passed: bool)
        ensures
            passed == (self.completed_frames == self.submitted_frames && self.incomplete_frames == 0
                && self.exact_mismatches == 0 && self.input_reconciliation_passed),
    {
        self.completed_frames == self.submitted_frames && self.incomplete_frames == 0
            && self.exact_mismatches == 0 && self.input_reconciliation_passed
    }
}

/// What a run's frames are marked with on the wire.
#[derive(Debug, Clone, Copy, PartialEq, Eq, Structural)]
pub struct LabWire {
    pub media: MediaWire,
    pub video_kind: u8,
    /// Flags of a lossless key frame.
    pub frame_flags: u16,
}

impl LabWire {
    /// What the fragments of frame number `frame_id` have in common.
    pub open spec fn spec_of(self, frame_id: u64) -> FragmentSpec {
        FragmentSpec {
            kind: self.video_kind,
            flags: self.frame_flags,
            stream_id: 1,
            codec_epoch: 1,
            frame_id,
            dependency_frame_id: None,
        }
    }

    /// What the fragments of frame number `frame_id` have in common.
    pub fn fragment_spec(self, frame_id: u64) -> (spec: FragmentSpec)
        ensures
            spec == self.spec_of(frame_id),
    {
        FragmentSpec {
            kind: self.video_kind,
            flags: self.frame_flags,
            stream_id: 1,
            codec_epoch: 1,
            frame_id,
            dependency_frame_id: None,
        }
    }
}

/// A datagram that arrived, decoded by the wire codec.
#[derive(Debug)]
pub struct LabArrival {
    pub delivery_ns: u64,
    pub datagram_len: usize,
    pub packet: Result<MediaPacket, ProtocolError>,
}

/// An arrival as mathematics sees it.
pub struct ArrivalView {
    pub delivery_ns: u64,
    pub datagram_len: usize,
    pub packet: Result<PacketView, ProtocolError>,
}

impl View for LabArrival {
    type V = ArrivalView;

    open spec fn view(&self) -> ArrivalView {
        ArrivalView {
            delivery_ns: self.delivery_ns,
            datagram_len: self.datagram_len,
            packet: decoded_view(self.packet),
        }
    }
}

/// The views of arrivals.
pub open spec fn arrival_views(arrivals: Seq<LabArrival>) -> Seq<ArrivalView> {
    Seq::new(arrivals.len(), |i: int| arrivals[i]@)
}

/// What became of one frame.
#[derive(Debug, Clone, Copy, PartialEq, Eq, Structural)]
pub enum FrameOutcome {
    /// Not every fragment arrived in time.
    Incomplete,
    /// The reassembled access unit does not decode.
    Undecodable,
    /// The access unit decodes, to the captured frame or to another one.
    Decoded { is_exact: bool, record: FrameTraceRecord },
}

/// What became of a frame, given what decoding its access unit gave, if all of
/// it arrived: whether the frame is the captured one, with its trace.
pub fn frame_outcome(
    decoded: Option<Result<(bool, FrameTraceRecord), CodecError>>,
) -> (outcome: FrameOutcome)
    ensures
        outcome == (match decoded {
            None => FrameOutcome::Incomplete,
            Some(Err(_)) => FrameOutcome::Undecodable,
            Some(Ok((is_exact, record))) => FrameOutcome::Decoded { is_exact, record },
        }),
{
    match decoded {
        None => FrameOutcome::Incomplete,
        Some(Err(_)) => FrameOutcome::Undecodable,
        Some(Ok((is_exact, record))) => FrameOutcome::Decoded { is_exact, record },
    }
}

/// Whether a decoded frame is the captured one.
pub fn frames_match(
    decoded: &[u8],
    decoded_checksum: u64,
    captured: &[u8],
    captured_checksum: u64,
) -> (is_exact: bool)
    ensures
        is_exact == (decoded@ == captured@ && decoded_checksum == captured_checksum),
{
    bytes_equal(decoded, captured) && decoded_checksum == captured_checksum
}

/// What the input layer says after it was told to apply a key press: whether
/// the key counts as pressed, or its error.
pub type PressReport = Result<bool, u16>;

/// What the input layer says after it was told to apply an empty snapshot that
/// follows a lost record: whether it was applied, and whether nothing counts as
/// pressed any more, or its error.
pub type SnapshotReport = Result<(bool, bool), u16>;

/// Verifies that a lost key release is repaired by the periodic state snapshot.
pub fn input_reconciliation_probe(press: PressReport, snapshot: SnapshotReport) -> (result: Result<
    bool,
    LabError,
>)
    ensures
        result == (match press {
            Err(error) => Err::<bool, LabError>(LabError::Input(error)),
            Ok(pressed) => if !pressed {
                Ok::<bool, LabError>(false)
            } else {
                match snapshot {
                    Err(error) => Err::<bool, LabError>(LabError::Input(error)),
                    Ok((applied, is_empty)) => Ok::<bool, LabError>(applied && is_empty),
                }
            },
        }),
{
    match press {
        Err(error) => return Err(LabError::Input(error)),
        Ok(pressed) => {
            if !pressed {
                return Ok(false);
            }
        },
    }
    match snapshot {
        Err(error) => Err(LabError::Input(error)),
        Ok((applied, is_empty)) => Ok(applied && is_empty),
    }
}

/// The submission of datagram number `index` of a frame.
pub open spec fn lab_packet(
    config: LabConfig,
    frame_id: u64,
    index: int,
    datagram: Seq<u8>,
) -> SimPacketView {
    SimPacketView {
        id: (frame_id * PACKET_IDS_PER_FRAME + index) as u64,
        lane: NetworkLane::RealtimeMedia,
        send_ns: config.send_time(frame_id),
        deadline_ns: config.deadline(frame_id),
        bytes: datagram,
    }
}

/// The link after the datagrams of a frame from number `index` on were
/// submitted, and how that went.
pub open spec fn submitting_from(
    network: SimulatorView,
    config: LabConfig,
    frame_id: u64,
    datagrams: Seq<Seq<u8>>,
    index: int,
) -> (SimulatorView, Result<(), LabError>)
    decreases datagrams.len() - index,
{
    if index < 0 || index >= datagrams.len() {
        (network, Ok(()))
    } else if frame_id * PACKET_IDS_PER_FRAME + index > u64::MAX {
        (network, Err(LabError::Arithmetic))
    } else {
        let step = network.submitting(lab_packet(config, frame_id, index, datagrams[index]));
        match step.1 {
            Err(error) => (step.0, Err(LabError::Transport(error))),
            Ok(_) => submitting_from(step.0, config, frame_id, datagrams, index + 1),
        }
    }
}

/// The bytes of datagrams.
pub open spec fn datagram_bytes(datagrams: Seq<Vec<u8>>) -> Seq<Seq<u8>> {
    Seq::new(datagrams.len(), |i: int| datagrams[i]@)
}

/// A run as mathematics sees it.
#[verifier::ext_equal]
pub struct LabView {
    pub config: LabConfig,
    pub network: SimulatorView,
    pub reassembler: ReassemblerView,
    pub traces: CollectorView,
    pub completed: u64,
    pub incomplete: u64,
    pub malformed: u64,
    pub mismatches: u64,
}

impl LabView {
    /// The run after one arrival, and the access unit that it completed for
    /// frame number `frame_id`.
    pub open spec fn receiving(self, frame_id: u64, arrival: ArrivalView) -> (
        LabView,
        Option<Seq<u8>>,
    ) {
        let step = self.reassembler.ingesting(
            arrival.datagram_len,
            arrival.packet,
            arrival.delivery_ns,
        );
        match step.1 {
            Ok(OutcomeView::Complete { header, bytes, .. }) => (
                LabView { reassembler: step.0, ..self },
                if header.frame_id == frame_id {
                    Some(bytes)
                } else {
                    None
                },
            ),
            Ok(_) => (LabView { reassembler: step.0, ..self }, None),
            Err(_) => (
                LabView {
                    reassembler: step.0,
                    malformed: raised(self.malformed, 1),
                    ..self
                },
                None,
            ),
        }
    }

    /// The run after arrivals in order, and the last access unit that they
    /// completed for frame number `frame_id`.
    pub open spec fn receiving_all(
        self,
        frame_id: u64,
        arrivals: Seq<ArrivalView>,
        found: Option<Seq<u8>>,
    ) -> (LabView, Option<Seq<u8>>)
        decreases arrivals.len(),
    {
        if arrivals.len() == 0 {
            (self, found)
        } else {
            let step = self.receiving(frame_id, arrivals[0]);
            let next = if step.1 is Some {
                step.1
            } else {
                found
            };
            step.0.receiving_all(frame_id, arrivals.skip(1), next)
        }
    }

    /// The run after a frame's outcome.
    pub open spec fn concluding(self, outcome: FrameOutcome) -> LabView {
        match outcome {
            FrameOutcome::Incomplete => LabView {
                incomplete: raised(self.incomplete, 1),
                ..self
            },
            FrameOutcome::Undecodable => LabView {
                mismatches: raised(self.mismatches, 1),
                ..self
            },
            FrameOutcome::Decoded { is_exact, record } => {
                let traced = LabView { traces: self.traces.pushing(record).0, ..self };
                if is_exact {
                    LabView { completed: raised(self.completed, 1), ..traced }
                } else {
                    LabView { mismatches: raised(self.mismatches, 1), ..traced }
                }
            },
        }
    }

    /// The report of a run whose incomplete frames have expired.
    pub open spec fn report(self, input_reconciliation_passed: bool) -> LabReport {
        let reassembled = self.reassembler.expired(self.config.final_time()).stats;
        LabReport {
            submitted_frames: self.config.frames,
            completed_frames: self.completed,
            incomplete_frames: self.incomplete,
            corrupt_or_malformed_datagrams: self.malformed,
            exact_mismatches: self.mismatches,
            input_reconciliation_passed,
            network_submitted: self.network.stats.submitted,
            network_delivered: self.network.stats.delivered,
            network_lost: self.network.stats.lost,
            network_expired: self.network.stats.expired,
            network_corrupted: self.network.stats.corrupted,
            reassembly_completed: reassembled.frames_completed,
            reassembly_expired: reassembled.frames_expired,
            trace_records: self.traces.records.len() as usize,
        }
    }
}

/// A run of the laboratory.
#[derive(Debug)]
pub struct LabRun {
    config: LabConfig,
    wire: LabWire,
    network: NetworkSimulator,
    reassembler: Reassembler,
    traces: TraceCollector,
    completed: u64,
    incomplete: u64,
    malformed: u64,
    mismatches: u64,
}

impl View for LabRun {
    type V = LabView;

    closed spec fn view(&self) -> LabView {
        LabView {
            config: self.config,
            network: self.network@,
            reassembler: self.reassembler@,
            traces: self.traces@,
            completed: self.completed,
            incomplete: self.incomplete,
            malformed: self.malformed,
            mismatches: self.mismatches,
        }
    }
}

impl LabRun {
    /// The parts of the run are well-formed.
    pub closed spec fn wf(&self) -> bool {
        &&& self.network.wf()
        &&& self.reassembler.wf()
        &&& self.traces@.is_valid()
    }

    /// What the run's frames are marked with on the wire.
    pub closed spec fn wire(&self) -> LabWire {
        self.wire
    }

    /// Starts a run.
    pub fn new(config: LabConfig, wire: LabWire) -> (result: Result<LabRun, LabError>)
        ensures
            if !config.is_shaped() {
                result is Err && result->Err_0 == LabError::InvalidConfig
            } else if !config.network.is_valid() {
                result is Err && result->Err_0 == LabError::Transport(
                    TransportError::InvalidNetworkProfile,
                )
            } else if !default_caps().is_valid(wire.media) {
                result is Err && result->Err_0 == LabError::Transport(
                    TransportError::InvalidReassemblyConfig,
                )
            } else {
                let run = result->Ok_0;
                &&& result is Ok
                &&& run.wf()
                &&& run.wire() == wire
                &&& run@ == (LabView {
                    config,
                    network: SimulatorView::fresh(config.network, config.seed ^ LINK_SEED_MASK),
                    reassembler: empty_reassembler(default_caps(), wire.media),
                    traces: CollectorView {
                        max_records: (if config.frames < MAX_LAB_TRACES {
                            config.frames
                        } else {
                            MAX_LAB_TRACES
                        }) as usize,
                        records: Seq::empty(),
                        rejected: 0,
                        evicted: 0,
                    },
                    completed: 0,
                    incomplete: 0,
                    malformed: 0,
                    mismatches: 0,
                })
            },
    {
        match config.validate() {
            Err(error) => return Err(error),
            Ok(()) => {},
        }
        let network: NetworkSimulator = match NetworkSimulator::new(
            config.network,
            config.seed ^ LINK_SEED_MASK,
        ) {
            Ok(network) => network,
            Err(error) => return Err(LabError::Transport(error)),
        };
        let reassembly: ReassemblyConfig = ReassemblyConfig::default();
        let reassembler: Reassembler = match Reassembler::new(reassembly, wire.media) {
            Ok(reassembler) => reassembler,
            Err(error) => return Err(LabError::Transport(error)),
        };
        let records: u64 = if config.frames < MAX_LAB_TRACES {
            config.frames
        } else {
            MAX_LAB_TRACES
        };
        Ok(
            LabRun {
                config,
                wire,
                network,
                reassembler,
                traces: TraceCollector::new(records as usize),
                completed: 0,
                incomplete: 0,
                malformed: 0,
                mismatches: 0,
            },
        )
    }

    /// Splits an encoded frame into packets. `encodable` is the packet codec's
    /// verdict on packets of this frame.
    pub fn split(
        &self,
        frame_id: u64,
        encoded: &[u8],
        encodable: Result<(), ProtocolError>,
    ) -> (result: Result<Vec<MediaPacket>, LabError>)
        ensures
            ({
                let inner = match result {
                    Ok(packets) => Ok::<Vec<MediaPacket>, TransportError>(packets),
                    Err(LabError::Transport(error)) => Err::<Vec<MediaPacket>, TransportError>(
                        error,
                    ),
                    Err(_) => Err::<Vec<MediaPacket>, TransportError>(TransportError::Arithmetic),
                };
                let mtu = self@.config.max_datagram_bytes;
                &&& result is Err ==> result->Err_0 is Transport
                &&& if 1_200 <= mtu <= 1_450 {
                    fragmented(
                        inner,
                        self.wire().spec_of(frame_id),
                        self.wire().media,
                        encoded@,
                        mtu,
                        encodable,
                    )
                } else {
                    inner == Err::<Vec<MediaPacket>, TransportError>(
                        TransportError::DatagramMtu(mtu),
                    )
                }
            }),
    {
        let spec: FragmentSpec = self.wire.fragment_spec(frame_id);
        match fragment_frame(
            self.wire.media,
            spec,
            encoded,
            self.config.max_datagram_bytes,
            encodable,
        ) {
            Ok(packets) => Ok(packets),
            Err(error) => Err(LabError::Transport(error)),
        }
    }

    /// Submits the datagrams of a frame to the link, in order.
    pub fn submit(&mut self, frame_id: u64, datagrams: Vec<Vec<u8>>) -> (result: Result<
        (),
        LabError,
    >)
        requires
            old(self).wf(),
        ensures
            final(self).wf(),
            final(self).wire() == old(self).wire(),
            ({
                let step = submitting_from(
                    old(self)@.network,
                    old(self)@.config,
                    frame_id,
                    datagram_bytes(datagrams@),
                    0,
                );
                &&& final(self)@ == (LabView { network: step.0, ..old(self)@ })
                &&& result == step.1
            }),
    {
        let send_ns: u64 = self.config.send_time_ns(frame_id);
        let deadline_ns: u64 = self.config.deadline_ns(frame_id);
        let ghost start = self@;
        let ghost bytes = datagram_bytes(datagrams@);
        let mut index: usize = 0;
        while index < datagrams.len()
            invariant
                index <= datagrams@.len(),
                self.wf(),
                self.wire() == old(self).wire(),
                bytes == datagram_bytes(datagrams@),
                start == old(self)@,
                self@ == (LabView { network: self@.network, ..start }),
                send_ns == start.config.send_time(frame_id),
                deadline_ns == start.config.deadline(frame_id),
                submitting_from(start.network, start.config, frame_id, bytes, 0)
                    == submitting_from(
                    self@.network,
                    start.config,
                    frame_id,
                    bytes,
                    index as int,
                ),
            decreases datagrams@.len() - index,
        {
            let base: u64 = match frame_id.checked_mul(PACKET_IDS_PER_FRAME) {
                Some(base) => base,
                None => return Err(LabError::Arithmetic),
            };
            let id: u64 = match base.checked_add(index as u64) {
                Some(id) => id,
                None => return Err(LabError::Arithmetic),
            };
            let mut copy: Vec<u8> = Vec::new();
            crate::bytes::append_bytes(&mut copy, &datagrams[index]);
            let packet: SimPacket = SimPacket {
                id,
                lane: NetworkLane::RealtimeMedia,
                send_ns,
                deadline_ns,
                bytes: copy,
            };
            proof {
                assert(copy@ =~= bytes[index as int]);
                assert(packet@ =~= lab_packet(
                    start.config,
                    frame_id,
                    index as int,
                    bytes[index as int],
                ));
            }
            match self.network.submit(packet) {
                Err(error) => return Err(LabError::Transport(error)),
                Ok(_) => {},
            }
            index += 1;
        }
        Ok(())
    }

    /// What the link delivers while frame number `frame_id` is awaited.
    pub fn poll(&mut self, frame_id: u64) -> (delivered: Vec<DeliveredPacket>)
        requires
            old(self).wf(),
        ensures
            final(self).wf(),
            final(self).wire() == old(self).wire(),
            ({
                let step = old(self)@.network.polling(old(self)@.config.poll_until(frame_id));
                &&& final(self)@ == (LabView { network: step.0, ..old(self)@ })
                &&& delivered_views(delivered@) == step.1
            }),
    {
        let until_ns: u64 = self.config.poll_until_ns(frame_id);
        self.network.poll(until_ns)
    }

    /// Reassembles one arrival.
    fn receive(&mut self, frame_id: u64, arrival: LabArrival) -> (found: Option<Vec<u8>>)
        requires
            old(self).wf(),
        ensures
            final(self).wf(),
            final(self).wire() == old(self).wire(),
            final(self)@ == old(self)@.receiving(frame_id, arrival@).0,
            match old(self)@.receiving(frame_id, arrival@).1 {
                Some(bytes) => found is Some && found->Some_0@ == bytes,
                None => found is None,
            },
    {
        match self.reassembler.ingest(arrival.datagram_len, arrival.packet, arrival.delivery_ns) {
            Ok(IngestOutcome::Complete(frame)) => {
                if frame.header.frame_id == frame_id {
                    Some(frame.bytes)
                } else {
                    None
                }
            },
            Ok(_) => None,
            Err(_) => {
                self.malformed = self.malformed.saturating_add(1);
                None
            },
        }
    }

    /// Reassembles arrivals in order. The result is the access unit of frame
    /// number `frame_id`, if they complete it.
    pub fn receive_all(&mut self, frame_id: u64, arrivals: VecDeque<LabArrival>) -> (found: Option<
        Vec<u8>,
    >)
        requires
            old(self).wf(),
        ensures
            final(self).wf(),
            final(self).wire() == old(self).wire(),
            ({
                let step = old(self)@.receiving_all(frame_id, arrival_views(arrivals@), None);
                &&& final(self)@ == step.0
                &&& match step.1 {
                    Some(bytes) => found is Some && found->Some_0@ == bytes,
                    None => found is None,
                }
            }),
    {
        let mut arrivals: VecDeque<LabArrival> = arrivals;
        let ghost goal = self@.receiving_all(frame_id, arrival_views(arrivals@), None);
        let mut found: Option<Vec<u8>> = None;
        while arrivals.len() > 0
            invariant
                self.wf(),
                self.wire() == old(self).wire(),
                self@.receiving_all(frame_id, arrival_views(arrivals@), found_view(found)) == goal,
            decreases arrivals@.len(),
        {
            let ghost views = arrival_views(arrivals@);
            match arrivals.pop_front() {
                Some(arrival) => {
                    proof {
                        assert(views[0] == arrival@);
                        assert(arrival_views(arrivals@) =~= views.skip(1));
                    }
                    let next: Option<Vec<u8>> = self.receive(frame_id, arrival);
                    if next.is_some() {
                        found = next;
                    }
                },
                None => {},
            }
        }
        proof {
            assert(arrival_views(arrivals@).len() == 0);
        }
        found
    }

    /// Counts a frame's outcome and keeps its trace.
    pub fn conclude(&mut self, outcome: FrameOutcome)
        requires
            old(self).wf(),
        ensures
            final(self).wf(),
            final(self).wire() == old(self).wire(),
            final(self)@ == old(self)@.concluding(outcome),
    {
        match outcome {
            FrameOutcome::Incomplete => {
                self.incomplete = self.incomplete.saturating_add(1);
            },
            FrameOutcome::Undecodable => {
                self.mismatches = self.mismatches.saturating_add(1);
            },
            FrameOutcome::Decoded { is_exact, record } => {
                if is_exact {
                    self.completed = self.completed.saturating_add(1);
                } else {
                    self.mismatches = self.mismatches.saturating_add(1);
                }
                let _pushed = self.traces.push(record);
            },
        }
    }

    /// Ends the run: what is still incomplete expires, and the counters become
    /// the report.
    pub fn finish(self, input_reconciliation_passed: bool) -> (result: (LabReport, TraceCollector))
        requires
            self.wf(),
        ensures
            result.0 == self@.report(input_reconciliation_passed),
            result.1@ == self@.traces,
    {
        let mut run: LabRun = self;
        let final_ns: u64 = run.config.send_time_ns(run.config.frames).saturating_add(
            run.config.frame_deadline_ns,
        ).saturating_add(1);
        let _expired = run.reassembler.expire(final_ns);
        let network: NetworkStats = run.network.stats();
        let reassembly: ReassemblyStats = run.reassembler.stats();
        let report: LabReport = LabReport {
            submitted_frames: run.config.frames,
            completed_frames: run.completed,
            incomplete_frames: run.incomplete,
            corrupt_or_malformed_datagrams: run.malformed,
            exact_mismatches: run.mismatches,
            input_reconciliation_passed,
            network_submitted: network.submitted,
            network_delivered: network.delivered,
            network_lost: network.lost,
            network_expired: network.expired,
            network_corrupted: network.corrupted,
            reassembly_completed: reassembly.frames_completed,
            reassembly_expired: reassembly.frames_expired,
            trace_records: run.traces.len(),
        };
        (report, run.traces)
    }
}

/// The view of an access unit that may be missing.
pub open spec fn found_view(found: Option<Vec<u8>>) -> Option<Seq<u8>> {
    match found {
        Some(bytes) => Some(bytes@),
        None => None,
    }
}

/// The trace of a frame that was sent and decoded without recovery.
pub fn frame_record(
    host: HostFrameTrace,
    client: ClientFrameTrace,
    encoded_len: usize,
    datagrams: u32,
) -> (record: FrameTraceRecord)
    ensures
        record == (FrameTraceRecord {
            host,
            client,
            encoded_bytes: encoded_len as u64,
            datagrams,
            recovery_count: 0,
        }),
{
    FrameTraceRecord {
        host,
        client,
        encoded_bytes: encoded_len as u64,
        datagrams,
        recovery_count: 0,
    }
}

/// The frames that a run has counted so far.
pub open spec fn counted(view: LabView) -> int {
    view.completed + view.incomplete + view.mismatches
}

/// Every frame is counted exactly once, whatever became of it.
pub proof fn law_every_frame_is_counted_once(view: LabView, outcome: FrameOutcome)
    requires
        counted(view) < u64::MAX,
    ensures
        counted(view.concluding(outcome)) == counted(view) + 1,
        view.concluding(outcome).malformed == view.malformed,
{
}

/// What arrives changes only the reassembler and the count of refused
/// datagrams.
pub proof fn law_arrivals_do_not_count_frames(
    view: LabView,
    frame_id: u64,
    arrivals: Seq<ArrivalView>,
    found: Option<Seq<u8>>,
)
    ensures
        counted(view.receiving_all(frame_id, arrivals, found).0) == counted(view),
        view.receiving_all(frame_id, arrivals, found).0.network == view.network,
    decreases arrivals.len(),
{
    if arrivals.len() > 0 {
        let step = view.receiving(frame_id, arrivals[0]);
        let next = if step.1 is Some {
            step.1
        } else {
            found
        };
        law_arrivals_do_not_count_frames(step.0, frame_id, arrivals.skip(1), next);
    }
}

// ---------------------------------------------------------------------------
// Manifests
// ---------------------------------------------------------------------------
/// A control character of Unicode.
pub open spec fn is_control(c: char) -> bool {
    (c as u32) < 32 || 127 <= (c as u32) < 160
}

/// A character inside a JSON string.
pub open spec fn escaped_char(c: char) -> Seq<char> {
    if c == '"' {
        "\\\""@
    } else if c == '\\' {
        "\\\\"@
    } else if c == '\n' {
        "\\n"@
    } else if c == '\r' {
        "\\r"@
    } else if c == '\t' {
        "\\t"@
    } else if is_control(c) {
        "?"@
    } else {
        seq![c]
    }
}

/// A text inside a JSON string.
pub open spec fn escaped(text: Seq<char>) -> Seq<char>
    decreases text.len(),
{
    if text.len() == 0 {
        Seq::empty()
    } else {
        escaped(text.drop_last()) + escaped_char(text.last())
    }
}

/// Writes a text so that it can stand inside a JSON string.
pub fn json_escape(value: &str) -> (text: String)
    ensures
        text@ == escaped(value@),
{
    let mut text: String = String::new();
    let len: usize = value.unicode_len();
    let mut index: usize = 0;
    proof {
        assert(value@.take(0) =~= Seq::empty());
        assert(text@ =~= escaped(value@.take(0)));
    }
    while index < len
        invariant
            index <= len,
            len == value@.len(),
            text@ == escaped(value@.take(index as int)),
        decreases len - index,
    {
        let c: char = value.get_char(index);
        let code: u32 = c as u32;
        let ghost before = text@;
        if c == '"' {
            push_text(&mut text, "\\\"");
        } else if c == '\\' {
            push_text(&mut text, "\\\\");
        } else if c == '\n' {
            push_text(&mut text, "\\n");
        } else if c == '\r' {
            push_text(&mut text, "\\r");
        } else if c == '\t' {
            push_text(&mut text, "\\t");
        } else if code < 32 || (127 <= code && code < 160) {
            push_text(&mut text, "?");
        } else {
            let piece: &str = value.substring_char(index, index + 1);
            push_text(&mut text, piece);
            proof {
                assert(piece@ =~= seq![c]);
            }
        }
        proof {
            let longer = value@.take(index + 1);
            assert(longer.drop_last() =~= value@.take(index as int));
            assert(longer.last() == c);
            assert(text@ == before + escaped_char(c));
        }
        index += 1;
    }
    proof {
        assert(value@.take(len as int) =~= value@);
    }
    text
}

/// The result part of a manifest.
pub open spec fn summary_text(report: LabReport, summary: TraceSummary) -> Seq<char> {
    ("{\"submitted_frames\":"@ + decimal(report.submitted_frames as nat)) + (
    ",\"completed_frames\":"@ + decimal(report.completed_frames as nat)) + (
    ",\"incomplete_frames\":"@ + decimal(report.incomplete_frames as nat)) + (
    ",\"exact_mismatches\":"@ + decimal(report.exact_mismatches as nat)) + (
    ",\"malformed_datagrams\":"@ + decimal(report.corrupt_or_malformed_datagrams as nat))
        + ",\"input_reconciliation_passed\":"@ + truth(report.input_reconciliation_passed) + (
    ",\"network\":{\"submitted\":"@ + decimal(report.network_submitted as nat)) + (
    ",\"delivered\":"@ + decimal(report.network_delivered as nat)) + (",\"lost\":"@ + decimal(
        report.network_lost as nat,
    )) + (",\"expired\":"@ + decimal(report.network_expired as nat)) + (",\"corrupted\":"@
        + decimal(report.network_corrupted as nat)) + ("},\"reassembly\":{\"completed\":"@
        + decimal(report.reassembly_completed as nat)) + (",\"expired\":"@ + decimal(
        report.reassembly_expired as nat,
    )) + ("},\"trace_records\":"@ + decimal(summary.records as nat)) + (",\"trace_rejected\":"@
        + decimal(summary.rejected as nat)) + (",\"trace_evicted\":"@ + decimal(
        summary.evicted as nat,
    )) + "}"@
}

/// Convenience summary for command-line output.
pub fn summary_json(report: LabReport, summary: TraceSummary) -> (text: String)
    ensures
        text@ == summary_text(report, summary),
{
    let mut text: String = String::from_str("{\"submitted_frames\":");
    push_decimal(&mut text, report.submitted_frames);
    push_field(&mut text, ",\"completed_frames\":", report.completed_frames);
    push_field(&mut text, ",\"incomplete_frames\":", report.incomplete_frames);
    push_field(&mut text, ",\"exact_mismatches\":", report.exact_mismatches);
    push_field(&mut text, ",\"malformed_datagrams\":", report.corrupt_or_malformed_datagrams);
    push_text(&mut text, ",\"input_reconciliation_passed\":");
    push_truth(&mut text, report.input_reconciliation_passed);
    push_field(&mut text, ",\"network\":{\"submitted\":", report.network_submitted);
    push_field(&mut text, ",\"delivered\":", report.network_delivered);
    push_field(&mut text, ",\"lost\":", report.network_lost);
    push_field(&mut text, ",\"expired\":", report.network_expired);
    push_field(&mut text, ",\"corrupted\":", report.network_corrupted);
    push_field(&mut text, "},\"reassembly\":{\"completed\":", report.reassembly_completed);
    push_field(&mut text, ",\"expired\":", report.reassembly_expired);
    push_field(&mut text, "},\"trace_records\":", summary.records as u64);
    push_field(&mut text, ",\"trace_rejected\":", summary.rejected);
    push_field(&mut text, ",\"trace_evicted\":", summary.evicted);
    push_text(&mut text, "}");
    text
}

/// A manifest: source revision, configuration and outcome.
pub open spec fn manifest_text(
    config: LabConfig,
    report: LabReport,
    summary: TraceSummary,
    commit: Seq<char>,
) -> Seq<char> {
    "{\"schema\":1,\"commit\":\""@ + escaped(commit) + ("\",\"config\":{\"frames\":"@ + decimal(
        config.frames as nat,
    )) + (",\"width\":"@ + decimal(config.width as nat)) + (",\"height\":"@ + decimal(
        config.height as nat,
    )) + (",\"max_datagram_bytes\":"@ + decimal(config.max_datagram_bytes as nat)) + (
    ",\"frame_interval_ns\":"@ + decimal(config.frame_interval_ns as nat)) + (
    ",\"frame_deadline_ns\":"@ + decimal(config.frame_deadline_ns as nat)) + (",\"seed\":"@
        + decimal(config.seed as nat)) + (",\"network\":{\"base_delay_ns\":"@ + decimal(
        config.network.base_delay_ns as nat,
    )) + (",\"jitter_ns\":"@ + decimal(config.network.jitter_ns as nat)) + (
    ",\"bandwidth_bps\":"@ + decimal(config.network.bandwidth_bps as nat)) + (
    ",\"loss_per_million\":"@ + decimal(config.network.loss_per_million as nat)) + (
    ",\"duplicate_per_million\":"@ + decimal(config.network.duplicate_per_million as nat)) + (
    ",\"reorder_per_million\":"@ + decimal(config.network.reorder_per_million as nat)) + (
    ",\"corrupt_per_million\":"@ + decimal(config.network.corrupt_per_million as nat))
        + "}},\"result\":"@ + summary_text(report, summary) + "}"@
}

/// The source revision that a manifest names.
pub open spec fn revision(commit: Option<&str>) -> Seq<char> {
    match commit {
        Some(commit) => commit@,
        None => "unknown"@,
    }
}

/// Reproducible run manifest containing configuration, outcome, and source
/// revision.
pub fn report_json(
    config: LabConfig,
    report: LabReport,
    summary: TraceSummary,
    commit: Option<&str>,
) -> (text: String)
    ensures
        text@ == manifest_text(config, report, summary, revision(commit)),
{
    let commit: &str = match commit {
        Some(commit) => commit,
        None => "unknown",
    };
    let mut text: String = String::from_str("{\"schema\":1,\"commit\":\"");
    let revision: String = json_escape(commit);
    push_text(&mut text, revision.as_str());
    push_field(&mut text, "\",\"config\":{\"frames\":", config.frames);
    push_field(&mut text, ",\"width\":", config.width as u64);
    push_field(&mut text, ",\"height\":", config.height as u64);
    push_field(&mut text, ",\"max_datagram_bytes\":", config.max_datagram_bytes as u64);
    push_field(&mut text, ",\"frame_interval_ns\":", config.frame_interval_ns);
    push_field(&mut text, ",\"frame_deadline_ns\":", config.frame_deadline_ns);
    push_field(&mut text, ",\"seed\":", config.seed);
    push_field(&mut text, ",\"network\":{\"base_delay_ns\":", config.network.base_delay_ns);
    push_field(&mut text, ",\"jitter_ns\":", config.network.jitter_ns);
    push_field(&mut text, ",\"bandwidth_bps\":", config.network.bandwidth_bps);
    push_field(&mut text, ",\"loss_per_million\":", config.network.loss_per_million as u64);
    push_field(
        &mut text,
        ",\"duplicate_per_million\":",
        config.network.duplicate_per_million as u64,
    );
    push_field(&mut text, ",\"reorder_per_million\":", config.network.reorder_per_million as u64);
    push_field(&mut text, ",\"corrupt_per_million\":", config.network.corrupt_per_million as u64);
    push_text(&mut text, "}},\"result\":");
    let result: String = summary_json(report, summary);
    push_text(&mut text, result.as_str());
    push_text(&mut text, "}");
    text
}

} // verus!
