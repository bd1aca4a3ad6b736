use latencydesk::congestion::{
    AdaptiveCongestionConfig, AdaptiveCongestionController, CodecReconfigureSignal,
    CongestionFeedbackMessage, RateFlags, ReconfigureReason,
};
use latencydesk::error::{ProtocolError, TransportError};
use latencydesk::fragment::{
    fragment_frame, fragment_frame_with_packet_budget, validate_datagram_mtu, FragmentSpec,
    MAX_DATAGRAM_MTU,
};
use latencydesk::media::{FrameKey, MediaHeader, MediaPacket, MediaWire};
use latencydesk::reassembly::{IngestOutcome, Reassembler, ReassemblyConfig};
use latencydesk::simulator::{
    NetworkLane, NetworkProfile, NetworkSimulator, NetworkStats, SimPacket, SubmitOutcome,
};

const MEDIA_HEADER_LEN: usize = 44;
const KEYFRAME: u16 = 1;
const PARITY: u16 = 0x8000;
const NO_DEPENDENCY: u64 = u64::MAX;

fn wire() -> MediaWire {
    MediaWire {
        header_len: MEDIA_HEADER_LEN,
        max_fragment_bytes: 1_406,
        max_frame_bytes: 16 * 1024 * 1024,
        no_dependency: NO_DEPENDENCY,
        parity_flag: PARITY,
    }
}

fn spec(frame_id: u64) -> FragmentSpec {
    FragmentSpec {
        kind: 1,
        flags: KEYFRAME,
        stream_id: 1,
        codec_epoch: 1,
        frame_id,
        dependency_frame_id: None,
    }
}

fn copy_of(packet: &MediaPacket) -> MediaPacket {
    MediaPacket::new(packet.header(), packet.payload().to_vec()).expect("packet")
}

fn datagram_len(packet: &MediaPacket) -> usize {
    MEDIA_HEADER_LEN + packet.payload().len()
}

fn reassembler() -> Reassembler {
    Reassembler::new(ReassemblyConfig::default(), wire()).expect("config")
}

fn take(
    reassembler: &mut Reassembler,
    packet: &MediaPacket,
    now_ns: u64,
) -> Result<IngestOutcome, TransportError> {
    reassembler.ingest(datagram_len(packet), Ok(copy_of(packet)), now_ns)
}

#[test]
fn out_of_order_round_trip() {
    let frame: Vec<u8> = (0..20_000).map(|index| (index % 251) as u8).collect();
    let mut packets = fragment_frame(wire(), spec(9), &frame, 1_200, Ok(())).expect("fragment");
    packets.reverse();
    let mut reassembler = reassembler();
    let mut completed = None;
    for (index, packet) in packets.iter().enumerate() {
        if let IngestOutcome::Complete(value) =
            take(&mut reassembler, packet, index as u64 * 1_000).expect("ingest")
        {
            completed = Some(value.bytes);
        }
    }
    assert_eq!(completed, Some(frame));
    assert_eq!(reassembler.buffered_bytes(), 0);
}

#[test]
fn packet_budget_round_trip_supports_quic_overhead() {
    let frame: Vec<u8> = (0..5_000).map(|index| (index % 251) as u8).collect();
    let mut packets =
        fragment_frame_with_packet_budget(wire(), spec(10), &frame, 1_156, Ok(())).expect("fragment");

    assert!(packets.len() > 1);
    assert!(packets.iter().all(|packet| datagram_len(packet) <= 1_156));
    packets.reverse();

    let mut reassembler = reassembler();
    let mut completed = None;
    for (index, packet) in packets.iter().enumerate() {
        if let IngestOutcome::Complete(value) =
            take(&mut reassembler, packet, index as u64 * 1_000).expect("ingest")
        {
            completed = Some(value.bytes);
        }
    }

    assert_eq!(completed, Some(frame));
}

#[test]
fn exact_duplicate_is_idempotent() {
    let packets = fragment_frame(wire(), spec(1), &[3_u8; 2_000], 1_200, Ok(())).expect("fragment");
    let mut reassembler = reassembler();
    assert!(matches!(
        take(&mut reassembler, &packets[0], 0).expect("first"),
        IngestOutcome::Pending { .. }
    ));
    assert!(matches!(
        take(&mut reassembler, &packets[0], 1).expect("duplicate"),
        IngestOutcome::Duplicate { .. }
    ));
    assert_eq!(reassembler.stats().duplicate_fragments, 1);
    assert_eq!(reassembler.fragment_entries(), 1);
}

#[test]
fn conflicting_overlap_drops_frame() {
    let packets = fragment_frame(wire(), spec(2), &[7_u8; 2_000], 1_200, Ok(())).expect("fragment");
    let mut overlapping_header = packets[0].header();
    overlapping_header.fragment_offset = 10;
    overlapping_header.fragment_len = 20;
    let overlapping = MediaPacket::new(overlapping_header, vec![8_u8; 20]).expect("encode");
    let mut reassembler = reassembler();
    take(&mut reassembler, &packets[0], 0).expect("first");
    assert_eq!(
        take(&mut reassembler, &overlapping, 1).err(),
        Some(TransportError::FragmentOverlap)
    );
    assert_eq!(reassembler.inflight_frames(), 0);
}

#[test]
fn simulator_is_reproducible() {
    let profile = NetworkProfile {
        loss_per_million: 100_000,
        duplicate_per_million: 100_000,
        reorder_per_million: 100_000,
        ..NetworkProfile::default()
    };
    let run = |seed| {
        let mut simulator = NetworkSimulator::new(profile, seed).expect("profile");
        for id in 0..100 {
            let _ = simulator.submit(SimPacket {
                id,
                lane: NetworkLane::RealtimeMedia,
                send_ns: id * 100_000,
                deadline_ns: 1_000_000_000,
                bytes: vec![id as u8; 100],
            });
        }
        let delivered: Vec<u64> = simulator
            .poll(2_000_000_000)
            .into_iter()
            .map(|delivered| delivered.packet.id)
            .collect();
        (simulator.stats(), delivered)
    };
    assert_eq!(run(42), run(42));
    assert_ne!(run(42), run(43));
}

#[test]
fn expired_packet_never_reaches_application() {
    let mut simulator = NetworkSimulator::new(
        NetworkProfile {
            base_delay_ns: 10_000,
            jitter_ns: 0,
            ..NetworkProfile::default()
        },
        1,
    )
    .expect("profile");
    simulator
        .submit(SimPacket {
            id: 1,
            lane: NetworkLane::RealtimeMedia,
            send_ns: 0,
            deadline_ns: 1,
            bytes: vec![1],
        })
        .expect("submit");
    assert!(simulator.poll(100_000).is_empty());
    assert_eq!(simulator.stats().expired, 1);
}

#[test]
fn mtu_validation_bounds() {
    assert!(validate_datagram_mtu(1_199).is_err());
    assert!(validate_datagram_mtu(1_200).is_ok());
    assert!(validate_datagram_mtu(1_400).is_ok());
    assert!(validate_datagram_mtu(1_450).is_ok());
    assert!(validate_datagram_mtu(1_451).is_err());
}

#[test]
fn fragment_frame_validates_mtu_bounds() {
    let frame = [1u8; 100];
    assert_eq!(
        fragment_frame(wire(), spec(1), &frame, 1_199, Ok(())).err(),
        Some(TransportError::DatagramMtu(1_199))
    );
    assert!(fragment_frame(wire(), spec(1), &frame, 1_200, Ok(())).is_ok());
    assert!(fragment_frame(wire(), spec(1), &frame, 1_450, Ok(())).is_ok());
    assert_eq!(
        fragment_frame(wire(), spec(1), &frame, 1_451, Ok(())).err(),
        Some(TransportError::DatagramMtu(1_451))
    );
}

#[test]
fn fragment_frame_with_packet_budget_validates_bounds() {
    let frame = [1_u8; 100];
    assert_eq!(
        fragment_frame_with_packet_budget(wire(), spec(1), &frame, MEDIA_HEADER_LEN, Ok(())).err(),
        Some(TransportError::DatagramMtu(MEDIA_HEADER_LEN))
    );
    assert_eq!(
        fragment_frame_with_packet_budget(wire(), spec(1), &frame, MEDIA_HEADER_LEN - 1, Ok(())).err(),
        Some(TransportError::DatagramMtu(MEDIA_HEADER_LEN - 1))
    );
    assert!(
        fragment_frame_with_packet_budget(wire(), spec(1), &frame, MEDIA_HEADER_LEN + 1, Ok(())).is_ok()
    );
    assert_eq!(
        fragment_frame_with_packet_budget(wire(), spec(1), &frame, MAX_DATAGRAM_MTU + 1, Ok(())).err(),
        Some(TransportError::DatagramMtu(MAX_DATAGRAM_MTU + 1))
    );
    assert_eq!(
        fragment_frame(wire(), spec(1), &frame, 1_199, Ok(())).err(),
        Some(TransportError::DatagramMtu(1_199))
    );
}

#[test]
fn reassembler_rejects_oversized_datagram() {
    let config = ReassemblyConfig {
        max_datagram_bytes: 1_300,
        ..Default::default()
    };
    let mut reassembler = Reassembler::new(config, wire()).expect("config");
    assert_eq!(
        reassembler
            .ingest(1_301, Err(ProtocolError::Malformed(0)), 0)
            .err(),
        Some(TransportError::DatagramMtu(1_301))
    );
}

#[test]
fn reassembler_handles_codec_epoch_stale_and_bump() {
    let mut reassembler = reassembler();
    assert_eq!(reassembler.active_codec_epoch(), 1);

    // Frame with epoch 2 (bump)
    let mut spec2 = spec(10);
    spec2.codec_epoch = 2;
    let frame_bytes = vec![0xAA_u8; 3_000];
    let packets2 = fragment_frame(wire(), spec2, &frame_bytes, 1_200, Ok(())).expect("fragment");

    // Ingest first fragment of epoch 2
    let outcome = take(&mut reassembler, &packets2[0], 1_000).expect("ingest");
    assert!(matches!(outcome, IngestOutcome::Pending { .. }));
    assert_eq!(reassembler.active_codec_epoch(), 2);
    assert_eq!(reassembler.stats().epoch_bumps, 1);

    // Ingest fragment of stale epoch 1 -> must be rejected
    let mut spec1 = spec(5);
    spec1.codec_epoch = 1;
    let packets1 = fragment_frame(wire(), spec1, &vec![0xBB_u8; 1_000], 1_200, Ok(())).expect("fragment");
    assert_eq!(
        take(&mut reassembler, &packets1[0], 2_000).err(),
        Some(TransportError::StaleCodecEpoch {
            packet_epoch: 1,
            current_epoch: 2,
        })
    );
    assert_eq!(reassembler.stats().stale_epoch_datagrams, 1);

    // Complete epoch 2 frame
    let mut completed = None;
    for packet in &packets2[1..] {
        if let IngestOutcome::Complete(res) =
            take(&mut reassembler, packet, 3_000).expect("ingest")
        {
            completed = Some(res.bytes);
        }
    }
    assert_eq!(completed, Some(frame_bytes));
}

#[test]
fn adaptive_congestion_controller_adaptation() {
    let config = AdaptiveCongestionConfig {
        initial_bitrate_bps: 10_000_000,
        initial_fps: 60,
        min_bitrate_bps: 500_000,
        max_bitrate_bps: 100_000_000,
        min_fps: 15,
        max_fps: 120,
        ..Default::default()
    };
    let mut controller = AdaptiveCongestionController::new(config).expect("controller");
    assert_eq!(controller.target_bitrate_bps(), 10_000_000);
    assert_eq!(controller.target_fps(), 60);

    // High loss / congestion sample: 15% loss
    let dec = controller.on_sample(80_000_000, 150_000, 20_000_000, 1_000);
    assert!(dec.target_bitrate_bps < 10_000_000);
    assert!(dec.target_bitrate_bps >= 500_000);

    // Multiple severe loss signals should throttle FPS and trigger keyframe
    for i in 2..10 {
        controller.on_sample(100_000_000, 200_000, 30_000_000, i * 1_000);
    }
    assert!(controller.target_fps() < 60);
    assert!(controller.target_fps() >= 15);
    assert!(controller.target_bitrate_bps() >= 500_000);

    // Clean, low-loss channel -> additive increase
    let before = controller.target_bitrate_bps();
    let before_fps = controller.target_fps();
    for i in 10..50 {
        controller.on_sample(15_000_000, 0, 1_000_000, i * 1_000);
    }
    assert!(controller.target_bitrate_bps() > before);
    assert!(controller.target_fps() >= before_fps);
}

#[test]
fn congestion_controller_loss_event_and_epoch_bump() {
    let rate_flags = RateFlags {
        force_keyframe: 1,
        epoch_bump: 2,
    };
    let mut controller =
        AdaptiveCongestionController::new(AdaptiveCongestionConfig::default()).expect("ctrl");

    let loss_dec = controller.on_loss_event(1_000);
    assert!(loss_dec.requires_codec_reconfigure);
    assert!(loss_dec.force_keyframe);

    let bump_dec = controller.on_epoch_bump(2, 2_000);
    assert!(bump_dec.requires_codec_reconfigure);
    assert!(bump_dec.force_keyframe);

    let signal = CodecReconfigureSignal {
        stream_id: 1,
        codec_epoch: 2,
        target_bitrate_bps: bump_dec.target_bitrate_bps,
        max_bitrate_bps: bump_dec.max_bitrate_bps,
        target_fps: bump_dec.target_fps,
        force_keyframe: true,
        reason: ReconfigureReason::EpochBump,
    };
    let msg = signal.to_rate_update_message(rate_flags);
    assert_eq!(msg.stream_id, 1);
    assert_eq!(msg.codec_epoch, 2);
    assert!(msg.flags & rate_flags.force_keyframe != 0);
    assert!(msg.flags & rate_flags.epoch_bump != 0);
}

#[test]
fn fragments_carry_exact_headers_and_payloads() {
    let frame: Vec<u8> = (0..25).collect();
    let with_dependency = FragmentSpec {
        dependency_frame_id: Some(6),
        ..spec(7)
    };
    let packets =
        fragment_frame_with_packet_budget(wire(), with_dependency, &frame, MEDIA_HEADER_LEN + 10, Ok(()))
            .expect("fragment");
    assert_eq!(packets.len(), 3);
    assert_eq!(
        packets[2].header(),
        MediaHeader {
            kind: 1,
            flags: KEYFRAME,
            stream_id: 1,
            codec_epoch: 1,
            frame_id: 7,
            dependency_frame_id: 6,
            frame_len: 25,
            fragment_offset: 20,
            fragment_len: 5,
        }
    );
    assert_eq!(packets[0].payload(), &frame[..10]);
    assert_eq!(packets[1].payload(), &frame[10..20]);
    assert_eq!(packets[2].payload(), &frame[20..]);
    let independent =
        fragment_frame_with_packet_budget(wire(), spec(7), &frame, 200, Ok(())).expect("fragment");
    assert_eq!(independent.len(), 1);
    assert_eq!(independent[0].header().dependency_frame_id, NO_DEPENDENCY);
}

#[test]
fn empty_and_oversized_frames_are_refused() {
    assert_eq!(
        fragment_frame(wire(), spec(1), &[], 1_200, Ok(())).err(),
        Some(TransportError::FrameLength(0))
    );
    let small = MediaWire {
        max_frame_bytes: 8,
        ..wire()
    };
    assert_eq!(
        fragment_frame(small, spec(1), &[0; 9], 1_200, Ok(())).err(),
        Some(TransportError::FrameLength(9))
    );
}

#[test]
fn packet_lengths_must_agree() {
    let header = MediaHeader {
        kind: 1,
        flags: 0,
        stream_id: 1,
        codec_epoch: 1,
        frame_id: 1,
        dependency_frame_id: NO_DEPENDENCY,
        frame_len: 4,
        fragment_offset: 2,
        fragment_len: 2,
    };
    assert!(MediaPacket::new(header, vec![1, 2]).is_ok());
    assert_eq!(
        MediaPacket::new(header, vec![1]).err(),
        Some(ProtocolError::Malformed(0))
    );
    assert_eq!(
        MediaPacket::new(
            MediaHeader {
                fragment_offset: 3,
                ..header
            },
            vec![1, 2]
        )
        .err(),
        Some(ProtocolError::Malformed(0))
    );
}

#[test]
fn frame_keys_order_by_stream_epoch_frame_and_kind() {
    let key = FrameKey {
        stream_id: 1,
        codec_epoch: 2,
        frame_id: 3,
        kind: 4,
    };
    assert!(key.before(FrameKey { kind: 5, ..key }));
    assert!(key.before(FrameKey {
        frame_id: 4,
        kind: 0,
        ..key
    }));
    assert!(key.before(FrameKey {
        codec_epoch: 3,
        frame_id: 0,
        ..key
    }));
    assert!(key.before(FrameKey {
        stream_id: 2,
        codec_epoch: 0,
        ..key
    }));
    assert!(!key.before(key));
    assert!(!key.before(FrameKey { kind: 3, ..key }));
}

#[test]
fn reassembly_config_is_checked() {
    let config = ReassemblyConfig::default();
    assert!(config.validate(wire()).is_ok());
    let broken = [
        ReassemblyConfig {
            max_inflight_frames: 0,
            ..config
        },
        ReassemblyConfig {
            max_buffered_bytes: 512 * 1024 * 1024 + 1,
            ..config
        },
        ReassemblyConfig {
            max_fragments_per_frame: config.max_fragment_entries + 1,
            ..config
        },
        ReassemblyConfig {
            max_frame_age_ns: 0,
            ..config
        },
        ReassemblyConfig {
            min_datagram_bytes: MEDIA_HEADER_LEN - 1,
            ..config
        },
        ReassemblyConfig {
            max_datagram_bytes: config.min_datagram_bytes - 1,
            ..config
        },
    ];
    for entry in broken {
        assert_eq!(
            Reassembler::new(entry, wire()).err(),
            Some(TransportError::InvalidReassemblyConfig)
        );
    }
}

#[test]
fn malformed_and_parity_datagrams_are_refused() {
    let mut reassembler = reassembler();
    assert_eq!(
        reassembler
            .ingest(100, Err(ProtocolError::Malformed(9)), 0)
            .err(),
        Some(TransportError::Protocol(ProtocolError::Malformed(9)))
    );
    assert_eq!(reassembler.stats().malformed_datagrams, 1);
    let parity = FragmentSpec {
        flags: PARITY,
        ..spec(1)
    };
    let packets = fragment_frame(wire(), parity, &[1; 10], 1_200, Ok(())).expect("fragment");
    assert_eq!(
        take(&mut reassembler, &packets[0], 1).err(),
        Some(TransportError::UnsupportedParity)
    );
    assert_eq!(reassembler.inflight_frames(), 0);
}

#[test]
fn same_place_with_other_bytes_drops_the_frame() {
    let packets = fragment_frame(wire(), spec(3), &[7; 2_000], 1_200, Ok(())).expect("fragment");
    let changed = MediaPacket::new(
        packets[0].header(),
        vec![9; packets[0].payload().len()],
    )
    .expect("packet");
    let mut reassembler = reassembler();
    take(&mut reassembler, &packets[0], 0).expect("first");
    assert_eq!(
        take(&mut reassembler, &changed, 1).err(),
        Some(TransportError::FragmentConflict)
    );
    assert_eq!(reassembler.inflight_frames(), 0);
    assert_eq!(reassembler.stats().conflicting_fragments, 1);
}

#[test]
fn changed_metadata_drops_the_frame() {
    let packets = fragment_frame(wire(), spec(3), &[7; 2_000], 1_200, Ok(())).expect("fragment");
    let other_flags = MediaPacket::new(
        MediaHeader {
            flags: 0,
            ..packets[1].header()
        },
        packets[1].payload().to_vec(),
    )
    .expect("packet");
    let mut reassembler = reassembler();
    take(&mut reassembler, &packets[0], 0).expect("first");
    assert_eq!(
        take(&mut reassembler, &other_flags, 1).err(),
        Some(TransportError::MetadataConflict(FrameKey {
            stream_id: 1,
            codec_epoch: 1,
            frame_id: 3,
            kind: 1,
        }))
    );
    assert_eq!(reassembler.inflight_frames(), 0);
}

#[test]
fn frame_larger_than_the_budget_is_refused() {
    let config = ReassemblyConfig {
        max_buffered_bytes: 1_000,
        ..Default::default()
    };
    let mut reassembler = Reassembler::new(config, wire()).expect("config");
    let packets = fragment_frame(wire(), spec(3), &[7; 2_000], 1_200, Ok(())).expect("fragment");
    assert_eq!(
        take(&mut reassembler, &packets[0], 0).err(),
        Some(TransportError::FrameExceedsReassemblyBudget {
            frame_bytes: 2_000,
            budget_bytes: 1_000,
        })
    );
}

#[test]
fn fragment_limit_drops_the_frame() {
    let config = ReassemblyConfig {
        max_fragments_per_frame: 1,
        ..Default::default()
    };
    let mut reassembler = Reassembler::new(config, wire()).expect("config");
    let packets = fragment_frame(wire(), spec(3), &[7; 4_000], 1_200, Ok(())).expect("fragment");
    take(&mut reassembler, &packets[0], 0).expect("first");
    assert_eq!(
        take(&mut reassembler, &packets[1], 1).err(),
        Some(TransportError::FragmentEntryLimit)
    );
    assert_eq!(reassembler.fragment_entries(), 0);
}

#[test]
fn oldest_frame_makes_room() {
    let config = ReassemblyConfig {
        max_inflight_frames: 1,
        ..Default::default()
    };
    let mut reassembler = Reassembler::new(config, wire()).expect("config");
    let first = fragment_frame(wire(), spec(3), &[7; 2_000], 1_200, Ok(())).expect("fragment");
    let second = fragment_frame(wire(), spec(4), &[7; 2_000], 1_200, Ok(())).expect("fragment");
    take(&mut reassembler, &first[0], 0).expect("first");
    take(&mut reassembler, &second[0], 1).expect("second");
    assert_eq!(reassembler.inflight_frames(), 1);
    assert_eq!(reassembler.stats().frames_evicted, 1);
    assert_eq!(reassembler.reserved_bytes(), 2_000);
    assert!(matches!(
        take(&mut reassembler, &second[1], 2).expect("rest"),
        IngestOutcome::Complete(_)
    ));
}

#[test]
fn frames_expire_only_after_their_age() {
    let config = ReassemblyConfig {
        max_frame_age_ns: 100,
        ..Default::default()
    };
    let mut reassembler = Reassembler::new(config, wire()).expect("config");
    let packets = fragment_frame(wire(), spec(3), &[7; 2_000], 1_200, Ok(())).expect("fragment");
    take(&mut reassembler, &packets[0], 1_000).expect("first");
    assert_eq!(reassembler.expire(1_099), 0);
    assert_eq!(reassembler.expire(1_100), 1);
    assert_eq!(reassembler.inflight_frames(), 0);
    assert_eq!(reassembler.stats().frames_expired, 1);
}

#[test]
fn every_order_of_three_packets_gives_the_frame_back() {
    let frame: Vec<u8> = (0..30).collect();
    let packets = fragment_frame_with_packet_budget(wire(), spec(1), &frame, MEDIA_HEADER_LEN + 10, Ok(()))
        .expect("fragment");
    let orders = [
        [0, 1, 2],
        [0, 2, 1],
        [1, 0, 2],
        [1, 2, 0],
        [2, 0, 1],
        [2, 1, 0],
    ];
    for order in orders {
        let mut reassembler = reassembler();
        let first = take(&mut reassembler, &packets[order[0]], 5).expect("first");
        assert!(matches!(
            first,
            IngestOutcome::Pending {
                received_bytes: 10,
                ..
            }
        ));
        take(&mut reassembler, &packets[order[1]], 6).expect("second");
        match take(&mut reassembler, &packets[order[2]], 7).expect("third") {
            IngestOutcome::Complete(done) => {
                assert_eq!(done.bytes, frame);
                assert_eq!(done.first_fragment_ns, 5);
                assert_eq!(done.completed_ns, 7);
            }
            other => panic!("{other:?}"),
        }
        assert_eq!(reassembler.fragment_entries(), 0);
        assert_eq!(reassembler.reserved_bytes(), 0);
    }
}

#[test]
fn lossless_simulator_delivers_at_the_exact_time() {
    let profile = NetworkProfile {
        base_delay_ns: 1_000,
        jitter_ns: 0,
        bandwidth_bps: 8_000_000_000,
        ..NetworkProfile::default()
    };
    let mut simulator = NetworkSimulator::new(profile, 7).expect("profile");
    let outcome = simulator
        .submit(SimPacket {
            id: 5,
            lane: NetworkLane::Control,
            send_ns: 100,
            deadline_ns: 10_000,
            bytes: vec![1; 50],
        })
        .expect("submit");
    assert_eq!(outcome, SubmitOutcome::Queued { copies: 1 });
    assert_eq!(simulator.queued_packets(), 1);
    assert_eq!(simulator.queued_bytes(), 50);
    assert!(simulator.poll(1_149).is_empty());
    let delivered = simulator.poll(1_150);
    assert_eq!(delivered.len(), 1);
    assert_eq!(delivered[0].delivery_ns, 1_150);
    assert_eq!(delivered[0].packet.id, 5);
    assert_eq!(
        simulator.stats(),
        NetworkStats {
            submitted: 1,
            delivered: 1,
            lost: 0,
            duplicated: 0,
            reordered: 0,
            corrupted: 0,
            expired: 0,
            queue_dropped: 0,
            delivered_bytes: 50,
        }
    );
}

#[test]
fn simulator_refuses_bad_profiles_and_packets() {
    for profile in [
        NetworkProfile {
            loss_per_million: 1_000_001,
            ..NetworkProfile::default()
        },
        NetworkProfile {
            bandwidth_bps: 0,
            ..NetworkProfile::default()
        },
        NetworkProfile {
            max_queued_packets: 0,
            ..NetworkProfile::default()
        },
    ] {
        assert_eq!(
            NetworkSimulator::new(profile, 1).err(),
            Some(TransportError::InvalidNetworkProfile)
        );
    }
    let profile = NetworkProfile {
        max_queued_packets: 1,
        ..NetworkProfile::default()
    };
    let packet = |bytes: Vec<u8>, deadline_ns: u64| SimPacket {
        id: 1,
        lane: NetworkLane::Audio,
        send_ns: 10,
        deadline_ns,
        bytes,
    };
    let mut simulator = NetworkSimulator::new(profile, 1).expect("profile");
    assert_eq!(
        simulator.submit(packet(vec![], 100)).err(),
        Some(TransportError::PacketSize(0))
    );
    assert_eq!(
        simulator.submit(packet(vec![1], 10)).err(),
        Some(TransportError::InvalidDeadline)
    );
    assert!(simulator.submit(packet(vec![1], 1_000_000_000)).is_ok());
    assert_eq!(
        simulator.submit(packet(vec![1], 1_000_000_000)).err(),
        Some(TransportError::NetworkQueueFull)
    );
    assert_eq!(simulator.stats().queue_dropped, 1);
    assert_eq!(simulator.queued_packets(), 1);
}

#[test]
fn certain_loss_delivers_nothing() {
    let profile = NetworkProfile {
        loss_per_million: 1_000_000,
        ..NetworkProfile::default()
    };
    let mut simulator = NetworkSimulator::new(profile, 3).expect("profile");
    for id in 0..10 {
        assert_eq!(
            simulator
                .submit(SimPacket {
                    id,
                    lane: NetworkLane::RealtimeMedia,
                    send_ns: 0,
                    deadline_ns: 1_000_000_000,
                    bytes: vec![1],
                })
                .expect("submit"),
            SubmitOutcome::SimulatedLoss
        );
    }
    assert!(simulator.poll(1_000_000_000).is_empty());
    assert_eq!(simulator.stats().lost, 10);
}

#[test]
fn poll_hands_packets_out_in_delivery_order() {
    let profile = NetworkProfile {
        jitter_ns: 5_000_000,
        duplicate_per_million: 500_000,
        ..NetworkProfile::default()
    };
    let mut simulator = NetworkSimulator::new(profile, 11).expect("profile");
    for id in 0..50 {
        simulator
            .submit(SimPacket {
                id,
                lane: NetworkLane::RealtimeMedia,
                send_ns: id * 1_000,
                deadline_ns: 1_000_000_000,
                bytes: vec![id as u8; 10],
            })
            .expect("submit");
    }
    let delivered = simulator.poll(3_000_000);
    assert!(!delivered.is_empty());
    assert!(delivered.iter().all(|entry| entry.delivery_ns <= 3_000_000));
    assert!(delivered
        .windows(2)
        .all(|pair| pair[0].delivery_ns <= pair[1].delivery_ns));
}

#[test]
fn congestion_config_is_checked() {
    let config = AdaptiveCongestionConfig::default();
    assert!(config.validate().is_ok());
    for broken in [
        AdaptiveCongestionConfig {
            min_bitrate_bps: config.max_bitrate_bps + 1,
            ..config
        },
        AdaptiveCongestionConfig {
            initial_fps: config.max_fps + 1,
            ..config
        },
    ] {
        assert_eq!(
            AdaptiveCongestionController::new(broken).err(),
            Some(TransportError::CongestionConfigInvalid)
        );
    }
}

#[test]
fn congestion_rates_stay_between_their_bounds() {
    let mut controller =
        AdaptiveCongestionController::new(AdaptiveCongestionConfig::default()).expect("ctrl");
    for step in 0..200 {
        controller.on_sample(500_000_000, 900_000, 100_000_000, step * 1_000_000);
        controller.on_loss_event(step * 1_000_000);
    }
    assert_eq!(controller.target_bitrate_bps(), 500_000);
    assert_eq!(controller.target_fps(), 15);
    let feedback = CongestionFeedbackMessage {
        rtt_ns: 1_000,
        loss_per_million: 0,
        jitter_ns: 0,
    };
    for step in 200..2_000 {
        controller.on_feedback(&feedback, step * 1_000_000);
    }
    assert_eq!(controller.target_bitrate_bps(), 100_000_000);
    assert!(controller.target_fps() <= 120);
    assert!(controller.stats().loss_events >= 200);
}

#[test]
fn refused_packets_are_not_split() {
    let refused = Err(ProtocolError::Malformed(9));
    let frame = [1_u8; 100];
    assert_eq!(
        fragment_frame(wire(), spec(1), &frame, 1_200, refused).err(),
        Some(TransportError::Protocol(ProtocolError::Malformed(9)))
    );
    assert_eq!(
        fragment_frame_with_packet_budget(wire(), spec(1), &frame, 200, refused).err(),
        Some(TransportError::Protocol(ProtocolError::Malformed(9)))
    );
    assert_eq!(
        fragment_frame(wire(), spec(1), &[], 1_200, refused).err(),
        Some(TransportError::FrameLength(0))
    );
    assert_eq!(
        fragment_frame(wire(), spec(1), &frame, 1_199, refused).err(),
        Some(TransportError::DatagramMtu(1_199))
    );
}

#[test]
fn pending_answers_count_the_payload_so_far() {
    let frame: Vec<u8> = (0..5_000).map(|index| (index % 251) as u8).collect();
    let mut packets = fragment_frame(wire(), spec(4), &frame, 1_200, Ok(())).expect("fragment");
    packets.swap(0, 2);
    let last = packets.len() - 1;
    let mut reassembler = reassembler();
    let mut so_far = 0;
    for (index, packet) in packets.iter().enumerate() {
        so_far += packet.payload().len();
        match take(&mut reassembler, packet, index as u64).expect("ingest") {
            IngestOutcome::Pending { received_bytes, .. } => {
                assert!(index < last);
                assert_eq!(received_bytes, so_far);
            }
            IngestOutcome::Complete(complete) => {
                assert_eq!(index, last);
                assert_eq!(complete.bytes, frame);
            }
            other => panic!("unexpected {other:?}"),
        }
    }
    assert_eq!(reassembler.inflight_frames(), 0);
    assert_eq!(reassembler.buffered_bytes(), 0);
    assert_eq!(reassembler.reserved_bytes(), 0);
    assert_eq!(reassembler.fragment_entries(), 0);
}

#[test]
fn link_accounts_for_every_packet() {
    let profile = NetworkProfile {
        loss_per_million: 200_000,
        duplicate_per_million: 300_000,
        reorder_per_million: 200_000,
        max_queued_packets: 12,
        ..NetworkProfile::default()
    };
    let mut simulator = NetworkSimulator::new(profile, 41).expect("profile");
    let mut queued = 0_u64;
    let mut copies_queued = 0_u64;
    let mut delivered = 0_u64;
    for id in 0..400_u64 {
        let send_ns = id * 100_000;
        let outcome = simulator.submit(SimPacket {
            id,
            lane: NetworkLane::RealtimeMedia,
            send_ns,
            deadline_ns: send_ns + 1_050_000,
            bytes: vec![id as u8; 100],
        });
        if let Ok(SubmitOutcome::Queued { copies }) = outcome {
            queued += 1;
            copies_queued += copies as u64;
        }
        delivered += simulator.poll(send_ns).len() as u64;
        let stats = simulator.stats();
        assert_eq!(stats.submitted, id + 1);
        assert_eq!(stats.submitted, stats.lost + stats.queue_dropped + queued);
        assert_eq!(
            copies_queued,
            stats.delivered + stats.expired + simulator.queued_packets() as u64
        );
        assert_eq!(stats.delivered, delivered);
    }
    let stats = simulator.stats();
    assert!(stats.lost > 0 && stats.queue_dropped > 0 && stats.expired > 0 && delivered > 0);
}

fn loaded_link() -> NetworkSimulator {
    let profile = NetworkProfile {
        duplicate_per_million: 300_000,
        reorder_per_million: 300_000,
        ..NetworkProfile::default()
    };
    let mut simulator = NetworkSimulator::new(profile, 5).expect("profile");
    for id in 0..50_u64 {
        let send_ns = id * 20_000;
        simulator
            .submit(SimPacket {
                id,
                lane: NetworkLane::RealtimeMedia,
                send_ns,
                deadline_ns: send_ns + 1_200_000,
                bytes: vec![id as u8; 100],
            })
            .expect("queued");
    }
    simulator
}

#[test]
fn polling_in_two_steps_changes_nothing() {
    let mut once = loaded_link();
    let mut twice = loaded_link();
    let all = once.poll(1_900_000);
    let mut parts = twice.poll(1_500_000);
    assert!(!parts.is_empty() && parts.len() < all.len());
    parts.extend(twice.poll(1_900_000));
    assert_eq!(parts, all);
    assert_eq!(once.stats(), twice.stats());
    assert_eq!(once.queued_packets(), twice.queued_packets());
    assert_eq!(once.queued_bytes(), twice.queued_bytes());
}

#[test]
fn link_holds_bytes_exactly_while_it_holds_packets() {
    let mut simulator = loaded_link();
    assert!(simulator.queued_packets() > 0);
    for now_ns in (1_000_000..4_000_000).step_by(100_000) {
        let _ = simulator.poll(now_ns);
        assert_eq!(
            simulator.queued_bytes() == 0,
            simulator.queued_packets() == 0
        );
    }
    assert_eq!(simulator.queued_packets(), 0);
}

#[test]
fn duplicate_leaves_no_trace() {
    let frame: Vec<u8> = (0..5_000).map(|index| (index % 251) as u8).collect();
    let packets = fragment_frame(wire(), spec(6), &frame, 1_200, Ok(())).expect("fragment");
    let mut plain = reassembler();
    let mut repeated = reassembler();
    take(&mut plain, &packets[0], 1).expect("first");
    take(&mut repeated, &packets[0], 1).expect("first");
    assert!(matches!(
        take(&mut repeated, &packets[0], 2),
        Ok(IngestOutcome::Duplicate { .. })
    ));
    assert_eq!(repeated.stats().duplicate_fragments, 1);
    assert_eq!(repeated.buffered_bytes(), plain.buffered_bytes());
    assert_eq!(repeated.reserved_bytes(), plain.reserved_bytes());
    assert_eq!(repeated.fragment_entries(), plain.fragment_entries());
    for (index, packet) in packets.iter().enumerate().skip(1) {
        let now_ns = 10 + index as u64;
        assert_eq!(
            format!("{:?}", take(&mut repeated, packet, now_ns)),
            format!("{:?}", take(&mut plain, packet, now_ns))
        );
    }
    assert_eq!(repeated.inflight_frames(), 0);
}
