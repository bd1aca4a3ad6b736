use latencydesk::codec::{CodecError, ExactTestCodec, RawFrame};
use latencydesk::error::{ProtocolError, TransportError};
use latencydesk::lab::{
    frame_outcome, frame_record, frames_match, input_reconciliation_probe, json_escape, report_json,
    summary_json, FrameOutcome, LabArrival, LabConfig, LabError, LabReport, LabRun, LabWire,
};
use latencydesk::media::{MediaHeader, MediaPacket, MediaWire};
use latencydesk::simulator::NetworkProfile;
use latencydesk::telemetry::{
    ClientFrameTrace, HostFrameTrace, TraceCollector, TraceSummary,
};
use std::collections::VecDeque;

const HEADER_LEN: usize = 38;

fn wire() -> LabWire {
    LabWire {
        media: MediaWire {
            header_len: HEADER_LEN,
            max_fragment_bytes: 1_412,
            max_frame_bytes: 64 * 1024 * 1024,
            no_dependency: u64::MAX,
            parity_flag: 0x8000,
        },
        video_kind: 1,
        frame_flags: 3,
    }
}

fn checksum64(data: &[u8]) -> u64 {
    let mut hash: u64 = 0xcbf2_9ce4_8422_2325;
    for byte in data {
        hash = (hash ^ u64::from(*byte)).wrapping_mul(0x0000_0100_0000_01b3);
    }
    hash
}

/// A packet format of the same shape as the media layer's: a fixed header,
/// then the payload, under one checksum byte.
fn to_datagram(packet: &MediaPacket) -> Vec<u8> {
    let header = packet.header();
    let mut bytes = vec![header.kind];
    bytes.extend_from_slice(&header.flags.to_be_bytes());
    bytes.extend_from_slice(&header.stream_id.to_be_bytes());
    bytes.extend_from_slice(&header.codec_epoch.to_be_bytes());
    bytes.extend_from_slice(&header.frame_id.to_be_bytes());
    bytes.extend_from_slice(&header.dependency_frame_id.to_be_bytes());
    bytes.extend_from_slice(&header.frame_len.to_be_bytes());
    bytes.extend_from_slice(&header.fragment_offset.to_be_bytes());
    bytes.extend_from_slice(&header.fragment_len.to_be_bytes());
    bytes.extend_from_slice(packet.payload());
    let sum = checksum64(&bytes) as u8;
    bytes.push(sum);
    bytes
}

fn word(bytes: &[u8], at: usize) -> u32 {
    u32::from_be_bytes([bytes[at], bytes[at + 1], bytes[at + 2], bytes[at + 3]])
}

fn long(bytes: &[u8], at: usize) -> u64 {
    (u64::from(word(bytes, at)) << 32) | u64::from(word(bytes, at + 4))
}

fn from_datagram(bytes: &[u8]) -> Result<MediaPacket, ProtocolError> {
    if bytes.len() < HEADER_LEN || checksum64(&bytes[..bytes.len() - 1]) as u8 != bytes[bytes.len() - 1] {
        return Err(ProtocolError::Malformed(1));
    }
    let header = MediaHeader {
        kind: bytes[0],
        flags: u16::from_be_bytes([bytes[1], bytes[2]]),
        stream_id: word(bytes, 3),
        codec_epoch: word(bytes, 7),
        frame_id: long(bytes, 11),
        dependency_frame_id: long(bytes, 19),
        frame_len: word(bytes, 27),
        fragment_offset: word(bytes, 31),
        fragment_len: u16::from_be_bytes([bytes[35], bytes[36]]),
    };
    MediaPacket::new(header, bytes[37..bytes.len() - 1].to_vec())
}

fn capture(config: LabConfig, frame_id: u64) -> RawFrame {
    let len = config.width as usize * config.height as usize * 4;
    RawFrame {
        width: config.width,
        height: config.height,
        format: 1,
        stride: config.width * 4,
        capture_sequence: frame_id,
        capture_timestamp_ns: config.send_time_ns(frame_id),
        data: (0..len)
            .map(|index| ((index as u64 * 31 + frame_id * 7 + config.seed) % 251) as u8)
            .collect(),
    }
}

fn decode(bytes: &[u8], raw_len: usize) -> Result<RawFrame, CodecError> {
    let decoded = ExactTestCodec::decode(bytes, 5, Ok(()), Ok(raw_len))?;
    let actual = checksum64(&decoded.data);
    let decoded = ExactTestCodec::verify_checksum(decoded, actual)?;
    ExactTestCodec::into_frame(decoded, Ok(()))
}

fn run_lab(config: LabConfig) -> Result<(LabReport, TraceCollector), LabError> {
    let mut run = LabRun::new(config, wire())?;
    for frame_id in 0..config.frames {
        let frame = capture(config, frame_id);
        let encoded =
            ExactTestCodec::encode(&frame, checksum64(&frame.data)).map_err(LabError::Codec)?;
        let packets = run.split(frame_id, &encoded, Ok(()))?;
        let datagrams: Vec<Vec<u8>> = packets.iter().map(to_datagram).collect();
        let count = datagrams.len() as u32;
        run.submit(frame_id, datagrams)?;
        let arrivals: VecDeque<LabArrival> = run
            .poll(frame_id)
            .into_iter()
            .map(|delivered| LabArrival {
                delivery_ns: delivered.delivery_ns,
                datagram_len: delivered.packet.bytes.len(),
                packet: from_datagram(&delivered.packet.bytes),
            })
            .collect();
        let decoded = run.receive_all(frame_id, arrivals).map(|access_unit| {
            let decoded = decode(&access_unit, frame.data.len())?;
            let is_exact = frames_match(
                &decoded.data,
                checksum64(&decoded.data),
                &frame.data,
                checksum64(&frame.data),
            );
            let record = frame_record(host(frame_id), client(frame_id), encoded.len(), count);
            Ok((is_exact, record))
        });
        run.conclude(frame_outcome(decoded));
    }
    Ok(run.finish(true))
}

fn host(frame_id: u64) -> HostFrameTrace {
    HostFrameTrace {
        frame_id,
        capture_done_ns: 1,
        encode_begin_ns: 2,
        encode_done_ns: 3,
        send_ns: 4,
    }
}

fn client(frame_id: u64) -> ClientFrameTrace {
    ClientFrameTrace {
        frame_id,
        receive_ns: 5,
        decode_begin_ns: 6,
        decode_done_ns: 7,
        present_submit_ns: 8,
    }
}

fn one_frame_report() -> LabReport {
    LabReport {
        submitted_frames: 1,
        completed_frames: 1,
        incomplete_frames: 0,
        corrupt_or_malformed_datagrams: 0,
        exact_mismatches: 0,
        input_reconciliation_passed: true,
        network_submitted: 1,
        network_delivered: 1,
        network_lost: 0,
        network_expired: 0,
        network_corrupted: 0,
        reassembly_completed: 1,
        reassembly_expired: 0,
        trace_records: 1,
    }
}

#[test]
fn lossless_profile_reconstructs_every_frame() {
    let config = LabConfig {
        frames: 12,
        width: 96,
        height: 64,
        network: NetworkProfile {
            duplicate_per_million: 200_000,
            reorder_per_million: 300_000,
            ..NetworkProfile::default()
        },
        ..LabConfig::default()
    };
    let (report, _) = run_lab(config).expect("lab");
    assert!(report.lossless_passed());
}

#[test]
fn lossy_profile_finishes_without_unbounded_state() {
    let config = LabConfig {
        frames: 30,
        width: 64,
        height: 48,
        network: NetworkProfile {
            loss_per_million: 50_000,
            corrupt_per_million: 10_000,
            ..NetworkProfile::default()
        },
        ..LabConfig::default()
    };
    let (report, _) = run_lab(config).expect("lab");
    assert_eq!(report.submitted_frames, 30);
    assert_eq!(
        report.completed_frames + report.incomplete_frames + report.exact_mismatches,
        30
    );
}

#[test]
fn report_manifest_records_seed_and_commit() {
    let config = LabConfig {
        frames: 1,
        width: 32,
        height: 24,
        seed: 77,
        ..LabConfig::default()
    };
    let report = one_frame_report();
    let empty = TraceSummary::default();
    let manifest = report_json(config, report, empty, Some("abc123"));
    assert!(manifest.contains("\"commit\":\"abc123\""));
    assert!(manifest.contains("\"seed\":77"));
    let unnamed = report_json(config, report, empty, None);
    assert!(unnamed.starts_with("{\"schema\":1,\"commit\":\"unknown\",\"config\":{\"frames\":1,"));
}

#[test]
fn summary_has_its_exact_text() {
    assert_eq!(
        summary_json(one_frame_report(), TraceSummary::default()),
        "{\"submitted_frames\":1,\"completed_frames\":1,\"incomplete_frames\":0,\"exact_mismatches\":0,\"malformed_datagrams\":0,\"input_reconciliation_passed\":true,\"network\":{\"submitted\":1,\"delivered\":1,\"lost\":0,\"expired\":0,\"corrupted\":0},\"reassembly\":{\"completed\":1,\"expired\":0},\"trace_records\":0,\"trace_rejected\":0,\"trace_evicted\":0}"
    );
}

#[test]
fn json_text_is_escaped() {
    assert_eq!(
        json_escape("a\"b\\c\nd\re\tf\u{1}g\u{85}h台"),
        "a\\\"b\\\\c\\nd\\re\\tf?g?h台"
    );
}

#[test]
fn lab_config_is_checked() {
    let config = LabConfig::default();
    assert!(config.validate().is_ok());
    assert_eq!(
        LabConfig {
            frames: 0,
            ..config
        }
        .validate(),
        Err(LabError::InvalidConfig)
    );
    let network = NetworkProfile {
        bandwidth_bps: 0,
        ..NetworkProfile::default()
    };
    assert_eq!(
        LabRun::new(LabConfig { network, ..config }, wire()).err(),
        Some(LabError::Transport(TransportError::InvalidNetworkProfile))
    );
    let huge_header = LabWire {
        media: MediaWire {
            header_len: 5_000,
            ..wire().media
        },
        ..wire()
    };
    assert_eq!(
        LabRun::new(config, huge_header).err(),
        Some(LabError::Transport(TransportError::InvalidReassemblyConfig))
    );
}

#[test]
fn lab_times_follow_the_frame_interval() {
    let config = LabConfig {
        frame_interval_ns: 1_000,
        frame_deadline_ns: 300,
        network: NetworkProfile {
            base_delay_ns: 50,
            ..NetworkProfile::default()
        },
        ..LabConfig::default()
    };
    assert_eq!(config.send_time_ns(3), 3_000);
    assert_eq!(config.deadline_ns(3), 3_300);
    assert_eq!(config.poll_until_ns(3), 3_350);
    assert_eq!(config.send_time_ns(u64::MAX), u64::MAX);
    assert_eq!(config.deadline_ns(u64::MAX), u64::MAX);
}

#[test]
fn undecodable_and_inexact_frames_count_as_mismatches() {
    let config = LabConfig {
        frames: 3,
        ..LabConfig::default()
    };
    let mut run = LabRun::new(config, wire()).expect("run");
    run.conclude(FrameOutcome::Undecodable);
    run.conclude(FrameOutcome::Decoded {
        is_exact: false,
        record: frame_record(host(1), client(1), 10, 1),
    });
    run.conclude(FrameOutcome::Incomplete);
    let (report, traces) = run.finish(false);
    assert_eq!(report.exact_mismatches, 2);
    assert_eq!(report.incomplete_frames, 1);
    assert_eq!(report.completed_frames, 0);
    assert_eq!(traces.len(), 1);
    assert!(!report.lossless_passed());
    assert!(!frames_match(&[1], 1, &[1], 2));
    assert!(!frames_match(&[1], 1, &[2], 1));
}

#[test]
fn packet_numbers_that_overflow_stop_the_lab() {
    let mut run = LabRun::new(LabConfig::default(), wire()).expect("run");
    assert_eq!(
        run.submit(u64::MAX, vec![vec![1]]).err(),
        Some(LabError::Arithmetic)
    );
}

#[test]
fn malformed_arrivals_are_only_counted() {
    let mut run = LabRun::new(LabConfig::default(), wire()).expect("run");
    let arrivals: VecDeque<LabArrival> = (0..4)
        .map(|time| LabArrival {
            delivery_ns: time,
            datagram_len: 10,
            packet: Err(ProtocolError::Malformed(2)),
        })
        .collect();
    assert_eq!(run.receive_all(0, arrivals), None);
    let (report, _) = run.finish(true);
    assert_eq!(report.corrupt_or_malformed_datagrams, 4);
    assert_eq!(report.completed_frames, 0);
}

#[test]
fn lost_release_must_be_repaired_by_the_snapshot() {
    assert_eq!(
        input_reconciliation_probe(Ok(true), Ok((true, true))),
        Ok(true)
    );
    assert_eq!(
        input_reconciliation_probe(Ok(true), Ok((true, false))),
        Ok(false)
    );
    assert_eq!(
        input_reconciliation_probe(Ok(true), Ok((false, true))),
        Ok(false)
    );
    assert_eq!(input_reconciliation_probe(Ok(false), Err(4)), Ok(false));
    assert_eq!(
        input_reconciliation_probe(Ok(true), Err(4)),
        Err(LabError::Input(4))
    );
    assert_eq!(
        input_reconciliation_probe(Err(3), Ok((true, true))),
        Err(LabError::Input(3))
    );
}

#[test]
fn frame_outcomes_are_told_apart() {
    assert_eq!(frame_outcome(None), FrameOutcome::Incomplete);
    assert_eq!(
        frame_outcome(Some(Err(CodecError::Magic))),
        FrameOutcome::Undecodable
    );
    let record = frame_record(host(1), client(1), 10, 1);
    assert_eq!(
        frame_outcome(Some(Ok((true, record)))),
        FrameOutcome::Decoded {
            is_exact: true,
            record,
        }
    );
}

#[test]
fn refused_packets_end_the_run() {
    let run = LabRun::new(LabConfig::default(), wire()).expect("run");
    assert_eq!(
        run.split(1, &[1; 10], Err(ProtocolError::Malformed(8))).err(),
        Some(LabError::Transport(TransportError::Protocol(
            ProtocolError::Malformed(8)
        )))
    );
    assert_eq!(wire().fragment_spec(3).frame_id, 3);
}
