use latencydesk::control::{ControlKind, ReceivedControl, SessionStamp, StreamKind};
use latencydesk::error::{ProtocolError, TransportError};
use latencydesk::fragment::FragmentSpec;
use latencydesk::media::{FrameKey, MediaPacket, MediaWire};
use latencydesk::product::{
    activate_client, active_stamp, check_authorized, check_generic_control, check_lane,
    check_stamp, control_payload_len, count_submission, enable_authenticated_ice_signaling,
    expect_candidate_exchange, expect_ice_generation, handshake_completed,
    is_skippable_ingest_error, media_packet_budget, plan_media_frame, receive_candidate_exchange,
    receive_control, receive_ice_candidates, receive_ice_credentials, receive_input,
    report_media_frame, send_candidate_exchange, send_control, send_ice_generation,
    stamp_at_route_epoch, validate_active_product_stamp, validate_handshake_completed,
    CandidateExchange, CandidateExchangeTracker, CandidateExchangeViolation, ControlReceiver,
    IceCredentialExchange, IceCredentialRole, IceGenerationTracker, IceGenerationViolation,
    IceSignalingMode, IceSignalingRoles, MediaReceiver, MediaStep, PrivateControl,
    ProductProtocolViolation, ProductSessionError, ReceivedMedia,
};
use latencydesk::quic::{
    admit_media, check_record_kind, media_outcome, ConnectionLoss, DatagramVerdict, InboundLanes,
    MediaSendOutcome, QuicTransportError, ReadFault, WriteFault,
};
use latencydesk::reassembly::ReassemblyConfig;
use latencydesk::route::RouteTransitionViolation;
use latencydesk::session::HandshakeCompletedMessage;

const MEDIA_HEADER_LEN: usize = 44;
const QUIC_MEDIA_HEADER_LEN: usize = 52;

fn wire() -> MediaWire {
    MediaWire {
        header_len: MEDIA_HEADER_LEN,
        max_fragment_bytes: 1_406,
        max_frame_bytes: 16 * 1024 * 1024,
        no_dependency: u64::MAX,
        parity_flag: 0x8000,
    }
}

fn candidate_exchange(generation: u32, exchange_id: u64) -> CandidateExchange {
    CandidateExchange {
        exchange_id,
        generation,
    }
}

fn credentials(
    generation: u32,
    exchange_id: u64,
    role: IceCredentialRole,
) -> IceCredentialExchange {
    IceCredentialExchange {
        exchange_id,
        generation,
        role,
    }
}

fn roles() -> IceSignalingRoles {
    IceSignalingRoles {
        local: IceCredentialRole::Controlling,
        remote: IceCredentialRole::Controlled,
    }
}

#[test]
fn only_quic_path_timeout_or_reset_is_a_retryable_product_failure() {
    let timeout =
        ProductSessionError::Quic(QuicTransportError::Connection(ConnectionLoss::TimedOut));
    let reset = ProductSessionError::Quic(QuicTransportError::Write(WriteFault::ConnectionLost(
        ConnectionLoss::Reset,
    )));
    let protocol = ProductSessionError::Protocol(ProtocolError::InvalidSessionStamp);

    assert!(timeout.is_retryable_connection_loss());
    assert!(reset.is_retryable_connection_loss());
    assert!(!protocol.is_retryable_connection_loss());
    let closed = QuicTransportError::Read(ReadFault::ConnectionLost(
        ConnectionLoss::ApplicationClosed,
    ));
    assert!(!ProductSessionError::Quic(closed).is_retryable_connection_loss());
}

#[test]
fn ice_generation_tracker_accepts_two_complete_generations() {
    let mut tracker = IceGenerationTracker::default();
    tracker = tracker
        .begin(&credentials(1, 42, IceCredentialRole::Controlling), 42)
        .unwrap();
    tracker = tracker.finish(&candidate_exchange(1, 42)).unwrap();
    tracker = tracker
        .begin(&credentials(2, 42, IceCredentialRole::Controlling), 42)
        .unwrap();
    assert_eq!(
        tracker
            .finish(&candidate_exchange(2, 42))
            .unwrap()
            .generation,
        2
    );
}

#[test]
fn ice_generation_tracker_rejects_candidate_before_credentials() {
    assert!(matches!(
        IceGenerationTracker::default().finish(&candidate_exchange(1, 42)),
        Err(IceGenerationViolation::CandidateBeforeCredentials)
    ));
}

#[test]
fn ice_generation_tracker_rejects_id_generation_replay_gap_and_overflow() {
    let mut tracker = IceGenerationTracker::default();
    assert!(matches!(
        tracker.begin(&credentials(1, 9, IceCredentialRole::Controlled), 42),
        Err(IceGenerationViolation::ExchangeId { .. })
    ));
    tracker = tracker
        .begin(&credentials(1, 42, IceCredentialRole::Controlled), 42)
        .unwrap();
    assert!(matches!(
        tracker.begin(&credentials(1, 42, IceCredentialRole::Controlled), 42),
        Err(IceGenerationViolation::Pending)
    ));
    tracker = tracker.finish(&candidate_exchange(1, 42)).unwrap();
    assert!(matches!(
        tracker.begin(&credentials(3, 42, IceCredentialRole::Controlled), 42),
        Err(IceGenerationViolation::Generation { .. })
    ));
    let exhausted = IceGenerationTracker {
        exchange_id: Some(42),
        generation: u32::MAX,
        pending: None,
        mode: Some(IceSignalingMode::CredentialGenerations),
        poisoned: false,
    };
    assert!(matches!(
        exhausted.begin(&credentials(1, 42, IceCredentialRole::Controlled), 42),
        Err(IceGenerationViolation::GenerationExhausted)
    ));
}

#[test]
fn ice_generation_tracker_rejects_candidate_id_or_generation_mismatch() {
    let tracker = IceGenerationTracker::default()
        .begin(&credentials(1, 42, IceCredentialRole::Controlling), 42)
        .unwrap();
    assert!(matches!(
        tracker.clone().finish(&candidate_exchange(1, 43)),
        Err(IceGenerationViolation::ExchangeId { .. })
    ));
    assert!(matches!(
        tracker.finish(&candidate_exchange(2, 42)),
        Err(IceGenerationViolation::Generation { .. })
    ));
}

#[test]
fn candidate_tracker_accepts_round_trip_and_sequential_updates() {
    let first = candidate_exchange(1, 42);
    let mut tracker = CandidateExchangeTracker::default();
    assert_eq!(tracker.accept(&first, Ok(())), Ok(()));
    assert_eq!(tracker.accept(&candidate_exchange(2, 42), Ok(())), Ok(()));
}

#[test]
fn candidate_tracker_rejects_replay_gap_id_change_and_exhaustion() {
    let mut tracker = CandidateExchangeTracker::default();
    assert!(tracker.accept(&candidate_exchange(1, 42), Ok(())).is_ok());
    for generation in [1, 3] {
        assert!(matches!(
            tracker.accept(&candidate_exchange(generation, 42), Ok(())),
            Err(CandidateExchangeViolation::Generation { .. })
        ));
    }
    assert!(matches!(
        tracker.accept(&candidate_exchange(2, 43), Ok(())),
        Err(CandidateExchangeViolation::ExchangeId { .. })
    ));
    let mut exhausted = CandidateExchangeTracker {
        exchange_id: Some(42),
        generation: u32::MAX,
    };
    assert_eq!(
        exhausted.accept(&candidate_exchange(u32::MAX, 42), Ok(())),
        Err(CandidateExchangeViolation::GenerationExhausted)
    );
}

#[test]
fn candidate_tracker_rejects_malformed_payload() {
    let mut tracker = CandidateExchangeTracker::default();
    let invalid = candidate_exchange(1, 1);
    assert!(matches!(
        tracker.accept(&invalid, Err(ProtocolError::Malformed(0))),
        Err(CandidateExchangeViolation::Malformed(_))
    ));
    assert_eq!(tracker, CandidateExchangeTracker::default());
}

#[test]
fn path_budget_below_both_headers_and_one_payload_byte_fails() {
    let too_small = QUIC_MEDIA_HEADER_LEN + MEDIA_HEADER_LEN;
    let error = media_packet_budget(wire(), QUIC_MEDIA_HEADER_LEN, too_small)
        .expect_err("one payload byte is required");
    assert!(matches!(
        error,
        ProductSessionError::DatagramBudgetTooSmall { .. }
    ));
    assert_eq!(
        media_packet_budget(wire(), QUIC_MEDIA_HEADER_LEN, too_small + 1)
            .expect("minimum complete datagram"),
        MEDIA_HEADER_LEN + 1
    );
}

#[test]
fn stale_and_conflict_ingest_errors_are_skippable() {
    assert!(is_skippable_ingest_error(
        &TransportError::StaleCodecEpoch {
            packet_epoch: 1,
            current_epoch: 2,
        }
    ));
    assert!(is_skippable_ingest_error(
        &TransportError::MetadataConflict(FrameKey {
            stream_id: 1,
            codec_epoch: 1,
            frame_id: 7,
            kind: 1,
        })
    ));
    assert!(!is_skippable_ingest_error(
        &TransportError::UnsupportedParity
    ));
}

#[test]
fn signaling_modes_exclude_each_other() {
    let announced = IceGenerationTracker::default().advertisement().unwrap();
    assert_eq!(
        announced.begin(&credentials(1, 42, IceCredentialRole::Controlling), 42),
        Err(IceGenerationViolation::ModeConflict)
    );
    let begun = IceGenerationTracker::default()
        .begin(&credentials(1, 42, IceCredentialRole::Controlling), 42)
        .unwrap();
    assert_eq!(
        begun.advertisement(),
        Err(IceGenerationViolation::ModeConflict)
    );
    assert_eq!(
        begun.ensure_mode(IceSignalingMode::CredentialGenerations),
        Ok(())
    );
    let mut poisoned = announced;
    poisoned.poison();
    assert_eq!(
        poisoned.advertisement(),
        Err(IceGenerationViolation::Poisoned)
    );
    assert_eq!(
        poisoned.begin(&credentials(1, 42, IceCredentialRole::Controlling), 42),
        Err(IceGenerationViolation::Poisoned)
    );
}

#[test]
fn signaling_needs_capability_on_both_sides() {
    assert_eq!(
        enable_authenticated_ice_signaling(None, roles(), Ok(true), Ok(true)),
        Ok(roles())
    );
    assert!(enable_authenticated_ice_signaling(None, roles(), Ok(true), Ok(false)).is_err());
    assert!(enable_authenticated_ice_signaling(None, roles(), Ok(false), Ok(true)).is_err());
    assert!(enable_authenticated_ice_signaling(
        None,
        roles(),
        Err(ProtocolError::Malformed(1)),
        Ok(true)
    )
    .is_err());
}

#[test]
fn sent_generation_must_match_the_negotiated_role() {
    let tracker = IceGenerationTracker::default();
    let next = send_ice_generation(
        &tracker,
        Some(roles()),
        42,
        credentials(1, 42, IceCredentialRole::Controlling),
        candidate_exchange(1, 42),
        Ok(()),
        Ok(()),
    )
    .expect("generation");
    assert_eq!(next.generation, 1);
    assert_eq!(
        send_ice_generation(
            &tracker,
            Some(roles()),
            42,
            credentials(1, 42, IceCredentialRole::Controlled),
            candidate_exchange(1, 42),
            Ok(()),
            Ok(()),
        ),
        Err(ProductSessionError::IceGeneration(
            IceGenerationViolation::RoleMismatch {
                expected: IceCredentialRole::Controlling,
                actual: IceCredentialRole::Controlled,
            }
        ))
    );
    assert_eq!(
        send_ice_generation(
            &tracker,
            None,
            42,
            credentials(1, 42, IceCredentialRole::Controlling),
            candidate_exchange(1, 42),
            Ok(()),
            Ok(()),
        ),
        Err(ProductSessionError::IceGeneration(
            IceGenerationViolation::IceSignalingNotNegotiated
        ))
    );
}

#[test]
fn sent_and_received_advertisements_count_up() {
    let (mode, tracker) = send_candidate_exchange(
        &IceGenerationTracker::default(),
        &CandidateExchangeTracker::default(),
        42,
        candidate_exchange(1, 42),
        Ok(()),
    )
    .expect("first");
    assert_eq!(mode.mode, Some(IceSignalingMode::AdvertisementOnly));
    assert_eq!(tracker.generation, 1);
    let mut received = CandidateExchangeTracker::default();
    let message = PrivateControl {
        kind: ControlKind::IceCandidate,
        body: Ok(candidate_exchange(1, 42)),
    };
    assert_eq!(
        receive_candidate_exchange(&mut received, 42, message),
        Ok(candidate_exchange(1, 42))
    );
    assert_eq!(received, tracker);
    let wrong = PrivateControl {
        kind: ControlKind::Capabilities,
        body: Ok(candidate_exchange(2, 42)),
    };
    assert_eq!(
        receive_candidate_exchange(&mut received, 42, wrong),
        Err(ProductSessionError::PeerProtocol(
            ProductProtocolViolation::UnexpectedCandidateKind {
                actual: ControlKind::Capabilities,
            }
        ))
    );
    let mut receiver = ControlReceiver::new(42);
    let again = PrivateControl {
        kind: ControlKind::IceCandidate,
        body: Ok(candidate_exchange(1, 42)),
    };
    assert!(receiver.next_candidate_exchange(again).is_ok());
    assert_eq!(receiver.candidate_exchange.generation, 1);
}

#[test]
fn received_generation_is_credentials_then_candidates() {
    let mut tracker = IceGenerationTracker::default();
    let negotiated = expect_ice_generation(&tracker, Some(roles())).expect("roles");
    assert!(expect_ice_generation(&tracker, None).is_err());
    let message = PrivateControl {
        kind: ControlKind::IceCredentials,
        body: Ok(credentials(1, 42, IceCredentialRole::Controlled)),
    };
    assert!(receive_ice_credentials(&mut tracker, negotiated, 42, message).is_ok());
    let candidates = PrivateControl {
        kind: ControlKind::IceCandidate,
        body: Ok(candidate_exchange(1, 42)),
    };
    assert!(receive_ice_candidates(&mut tracker, candidates).is_ok());
    assert_eq!(tracker.generation, 1);
    assert!(expect_candidate_exchange(&tracker).is_err());
    let wrong_role = PrivateControl {
        kind: ControlKind::IceCredentials,
        body: Ok(credentials(2, 42, IceCredentialRole::Controlling)),
    };
    assert!(receive_ice_credentials(&mut tracker, negotiated, 42, wrong_role).is_err());
}

fn stamp() -> SessionStamp {
    active_stamp(42)
}

fn completed(stamp: SessionStamp) -> ReceivedControl<HandshakeCompletedMessage> {
    let record = handshake_completed(stamp);
    ReceivedControl {
        kind: record.kind,
        session_id: record.session_id,
        body: Ok(record.body),
    }
}

#[test]
fn published_stamp_activates_the_client() {
    assert_eq!(validate_active_product_stamp(stamp(), Ok(())), Ok(()));
    assert_eq!(
        activate_client(
            StreamKind::Control,
            stamp(),
            Ok(()),
            Ok(completed(stamp())),
            None
        ),
        Ok(stamp())
    );
    assert_eq!(
        activate_client(
            StreamKind::Input,
            stamp(),
            Ok(()),
            Ok(completed(stamp())),
            None
        ),
        Err(ProductSessionError::PeerProtocol(
            ProductProtocolViolation::UnexpectedLane {
                expected: StreamKind::Control,
                actual: StreamKind::Input,
            }
        ))
    );
    let mut wrong_kind = completed(stamp());
    wrong_kind.kind = ControlKind::Hello;
    assert_eq!(
        validate_handshake_completed(stamp(), Ok(()), Ok(wrong_kind)),
        Err(ProductSessionError::PeerProtocol(
            ProductProtocolViolation::UnexpectedHandshakeKind(ControlKind::Hello)
        ))
    );
    let mut other_session = completed(stamp());
    other_session.session_id = 43;
    assert_eq!(
        validate_handshake_completed(stamp(), Ok(()), Ok(other_session)),
        Err(ProductSessionError::PeerProtocol(
            ProductProtocolViolation::ControlSessionMismatch {
                expected: 42,
                actual: 43,
            }
        ))
    );
}

#[test]
fn successor_must_be_strictly_later() {
    let previous = stamp();
    let same = activate_client(
        StreamKind::Control,
        stamp(),
        Ok(()),
        Ok(completed(stamp())),
        Some(previous),
    );
    assert_eq!(
        same,
        Err(ProductSessionError::PeerProtocol(
            ProductProtocolViolation::NonMonotonicSuccessor {
                previous,
                actual: stamp(),
            }
        ))
    );
}

#[test]
fn lanes_and_stamps_are_exact() {
    assert_eq!(check_lane(StreamKind::Control, StreamKind::Control), Ok(()));
    assert_eq!(
        check_lane(StreamKind::Control, StreamKind::Input),
        Err(ProductSessionError::PeerProtocol(
            ProductProtocolViolation::UnexpectedLane {
                expected: StreamKind::Control,
                actual: StreamKind::Input,
            }
        ))
    );
    let moved = stamp_at_route_epoch(stamp(), 9);
    assert_eq!(moved.route_epoch, 9);
    assert_eq!(check_stamp(stamp(), stamp()), Ok(()));
    assert_eq!(
        check_stamp(stamp(), moved),
        Err(ProductSessionError::PeerProtocol(
            ProductProtocolViolation::StampMismatch {
                expected: stamp(),
                actual: moved,
            }
        ))
    );
    assert_eq!(receive_input(true, stamp(), stamp()), Ok(()));
    assert!(receive_input(true, moved, stamp()).is_err());
    assert_eq!(
        receive_input(false, stamp(), stamp()),
        Err(ProductSessionError::RouteTransition(
            RouteTransitionViolation::InactiveRoute
        ))
    );
}

#[test]
fn typed_records_do_not_pass_the_generic_api() {
    assert_eq!(check_generic_control(ControlKind::Capabilities), Ok(()));
    for kind in [ControlKind::IceCredentials, ControlKind::IceCandidate] {
        assert_eq!(
            check_generic_control(kind),
            Err(ProductSessionError::IceGeneration(
                IceGenerationViolation::IceControlRequiresTypedApi
            ))
        );
    }
    assert_eq!(
        check_generic_control(ControlKind::RouteCommit),
        Err(ProductSessionError::RouteTransition(
            RouteTransitionViolation::ControlRequiresTypedApi
        ))
    );
    assert_eq!(check_authorized(true), Ok(()));
    assert_eq!(send_control(true, ControlKind::ConfigureStream), Ok(()));
    assert_eq!(
        send_control(false, ControlKind::ConfigureStream),
        Err(ProductSessionError::RouteTransition(
            RouteTransitionViolation::InactiveRoute
        ))
    );
    assert_eq!(control_payload_len(70_000), Ok(70_000));
}

#[test]
fn stale_route_epoch_control_is_refused() {
    let packet = || {
        Ok(ReceivedControl {
            kind: ControlKind::Capabilities,
            session_id: 42,
            body: Ok(5_u8),
        })
    };
    let taken = receive_control(true, false, stamp(), stamp(), packet()).expect("control");
    assert_eq!(taken.kind, ControlKind::Capabilities);
    assert_eq!(taken.body, Ok(5));
    let stale = stamp_at_route_epoch(stamp(), 7);
    assert!(matches!(
        receive_control(true, false, stamp(), stale, packet()),
        Err(ProductSessionError::PeerProtocol(
            ProductProtocolViolation::StampMismatch { .. }
        ))
    ));
    assert!(matches!(
        receive_control(false, false, stamp(), stamp(), packet()),
        Err(ProductSessionError::RouteTransition(
            RouteTransitionViolation::InactiveRoute
        ))
    ));
}

fn spec(frame_id: u64) -> FragmentSpec {
    FragmentSpec {
        kind: 1,
        flags: 1,
        stream_id: 1,
        codec_epoch: stamp().codec_epoch,
        frame_id,
        dependency_frame_id: None,
    }
}

#[test]
fn media_frame_is_planned_and_reported() {
    let plan = plan_media_frame(
        wire(),
        QUIC_MEDIA_HEADER_LEN,
        true,
        spec(1),
        &[7; 2_500],
        1_000,
        50,
        Some(1_252),
        Ok(()),
    )
    .expect("plan");
    assert_eq!(plan.packets.len(), 3);
    assert_eq!(plan.expires_at_ns, 1_050);
    assert_eq!(plan.path_max_datagram_bytes, 1_252);
    assert_eq!(plan.largest_datagram_bytes, 1_252);
    let report = report_media_frame(&plan, &[MediaSendOutcome::Sent; 3]).expect("report");
    assert_eq!(report.fragments_sent, 3);
    assert_eq!(report.expires_at_ns, 1_050);
    assert_eq!(
        report_media_frame(
            &plan,
            &[MediaSendOutcome::Sent, MediaSendOutcome::DroppedExpired]
        ),
        Err(ProductSessionError::MediaSendAborted {
            outcome: MediaSendOutcome::DroppedExpired,
            fragments_sent: 1,
            fragments_total: 3,
        })
    );
    assert_eq!(count_submission(1, 3, MediaSendOutcome::Sent), Ok(2));
}

#[test]
fn media_plan_faults_are_told_apart() {
    let plan = |authorized: bool, max_age_ns: u128, now_ns: u64, path_max: Option<usize>| {
        plan_media_frame(
            wire(),
            QUIC_MEDIA_HEADER_LEN,
            authorized,
            spec(1),
            &[7; 100],
            max_age_ns,
            now_ns,
            path_max,
            Ok(()),
        )
        .err()
    };
    assert_eq!(plan(true, 1_000, 0, Some(1_252)), None);
    assert_eq!(
        plan(true, 0, 0, Some(1_252)),
        Some(ProductSessionError::InvalidMediaMaxAge)
    );
    assert_eq!(
        plan(true, 1_000, u64::MAX, Some(1_252)),
        Some(ProductSessionError::MediaDeadlineOverflow)
    );
    assert_eq!(
        plan(true, 1_000, 0, None),
        Some(ProductSessionError::DatagramsUnsupported)
    );
    assert!(matches!(
        plan(true, 1_000, 0, Some(60)),
        Some(ProductSessionError::DatagramBudgetTooSmall { .. })
    ));
    assert_eq!(
        plan(false, 1_000, 0, Some(1_252)),
        Some(ProductSessionError::RouteTransition(
            RouteTransitionViolation::InactiveRoute
        ))
    );
}

fn media(packet: &MediaPacket, stamp: SessionStamp) -> Result<ReceivedMedia, ProtocolError> {
    Ok(ReceivedMedia {
        stamp,
        inner_len: MEDIA_HEADER_LEN + packet.payload().len(),
        packet: MediaPacket::new(packet.header(), packet.payload().to_vec()),
    })
}

fn packets(frame_id: u64) -> Vec<MediaPacket> {
    plan_media_frame(
        wire(),
        QUIC_MEDIA_HEADER_LEN,
        true,
        spec(frame_id),
        &[frame_id as u8; 2_000],
        1_000_000,
        0,
        Some(1_252),
        Ok(()),
    )
    .expect("plan")
    .packets
}

#[test]
fn frames_are_delivered_once_and_in_increasing_order() {
    let mut receiver =
        MediaReceiver::new(ReassemblyConfig::default(), wire(), stamp()).expect("receiver");
    let mut deliver = |frame_id: u64| {
        let mut delivered = None;
        for packet in packets(frame_id) {
            match receiver
                .receive(true, stamp(), stamp(), media(&packet, stamp()), 10)
                .expect("receive")
            {
                MediaStep::Deliver(frame) => delivered = Some(frame.header.frame_id),
                MediaStep::Continue => {}
            }
        }
        delivered
    };
    assert_eq!(deliver(5), Some(5));
    assert_eq!(deliver(4), None);
    assert_eq!(deliver(5), None);
    assert_eq!(deliver(6), Some(6));
}

#[test]
fn media_of_another_stamp_is_refused() {
    let mut receiver =
        MediaReceiver::new(ReassemblyConfig::default(), wire(), stamp()).expect("receiver");
    let packet = &packets(1)[0];
    let other = stamp_at_route_epoch(stamp(), 8);
    assert!(receiver
        .receive(true, stamp(), stamp(), media(packet, other), 10)
        .is_err());
    assert!(receiver
        .receive(false, stamp(), stamp(), media(packet, stamp()), 10)
        .is_err());
    assert_eq!(receiver.reassembler().inflight_frames(), 0);
}

#[test]
fn only_live_fitting_media_is_admitted() {
    assert_eq!(admit_media(Ok(100), 500, 50, 100, Some(1_200)), Ok(None));
    assert_eq!(
        admit_media(Ok(100), 500, 100, 100, Some(1_200)),
        Ok(Some(MediaSendOutcome::DroppedExpired))
    );
    assert_eq!(
        admit_media(Ok(100), 500, 50, 100, None),
        Ok(Some(MediaSendOutcome::Unsupported))
    );
    assert_eq!(
        admit_media(Ok(100), 1_201, 50, 100, Some(1_200)),
        Ok(Some(MediaSendOutcome::DroppedTooLarge))
    );
    assert_eq!(
        admit_media(Ok(99), 500, 50, 100, Some(1_200)),
        Err(QuicTransportError::ExpiryMismatch {
            expected: 100,
            actual: 99,
        })
    );
    assert_eq!(
        admit_media(Err(ProtocolError::Malformed(1)), 500, 50, 100, Some(1_200)),
        Err(QuicTransportError::Protocol(ProtocolError::Malformed(1)))
    );
    assert_eq!(
        media_outcome(DatagramVerdict::Accepted),
        Ok(MediaSendOutcome::Sent)
    );
    assert_eq!(
        media_outcome(DatagramVerdict::ConnectionLost(ConnectionLoss::Reset)),
        Err(QuicTransportError::Connection(ConnectionLoss::Reset))
    );
}

#[test]
fn each_inbound_lane_opens_once() {
    let mut lanes = InboundLanes::default();
    assert_eq!(lanes.open_lane(StreamKind::Control), Ok(()));
    assert_eq!(lanes.open_lane(StreamKind::Input), Ok(()));
    assert_eq!(
        lanes.open_lane(StreamKind::Control),
        Err(QuicTransportError::DuplicateInboundLane(StreamKind::Control))
    );
    assert_eq!(
        check_record_kind(StreamKind::Control, Ok(StreamKind::Control)).0,
        Ok(())
    );
    let changed = check_record_kind(StreamKind::Control, Ok(StreamKind::Input));
    assert_eq!(
        changed.0,
        Err(QuicTransportError::StreamKindChanged {
            expected: StreamKind::Control,
            actual: StreamKind::Input,
        })
    );
    assert!(changed.1);
}

#[test]
fn planned_frame_is_delivered_whole_from_any_order() {
    let frame: Vec<u8> = (0..8_000).map(|index| (index % 251) as u8).collect();
    let plan = plan_media_frame(
        wire(),
        QUIC_MEDIA_HEADER_LEN,
        true,
        spec(7),
        &frame,
        1_000_000,
        0,
        Some(1_252),
        Ok(()),
    )
    .expect("plan");
    let mut receiver =
        MediaReceiver::new(ReassemblyConfig::default(), wire(), stamp()).expect("receiver");
    let mut delivered = Vec::new();
    for (step, packet) in plan.packets.iter().rev().enumerate() {
        match receiver
            .receive(
                true,
                stamp(),
                stamp(),
                media(packet, stamp()),
                10 + step as u64,
            )
            .expect("receive")
        {
            MediaStep::Deliver(frame) => delivered.push(frame),
            MediaStep::Continue => assert!(step + 1 < plan.packets.len()),
        }
    }
    assert_eq!(delivered.len(), 1);
    assert_eq!(delivered[0].bytes, frame);
    assert_eq!(delivered[0].header.frame_id, 7);
    assert_eq!(delivered[0].first_fragment_ns, 10);
    assert_eq!(receiver.reassembler().inflight_frames(), 0);
}

#[test]
fn refused_datagrams_are_not_planned() {
    let plan = |max_age_ns: u128, path_max: Option<usize>| {
        plan_media_frame(
            wire(),
            QUIC_MEDIA_HEADER_LEN,
            true,
            spec(1),
            &[7; 100],
            max_age_ns,
            0,
            path_max,
            Err(ProtocolError::Malformed(6)),
        )
        .err()
    };
    assert_eq!(
        plan(1_000, Some(1_252)),
        Some(ProductSessionError::Protocol(ProtocolError::Malformed(6)))
    );
    assert_eq!(
        plan(1_000, None),
        Some(ProductSessionError::DatagramsUnsupported)
    );
}

#[test]
fn expiry_counts_the_frames_that_left() {
    let config = ReassemblyConfig::default();
    let mut receiver = MediaReceiver::new(config, wire(), stamp()).expect("receiver");
    for frame_id in [3, 4] {
        let packet = packets(frame_id).remove(0);
        receiver
            .receive(true, stamp(), stamp(), media(&packet, stamp()), 0)
            .expect("pending");
    }
    assert_eq!(receiver.expire(0), 0);
    assert_eq!(receiver.expire(config.max_frame_age_ns), 2);
    assert_eq!(receiver.expire(config.max_frame_age_ns), 0);
}

#[test]
fn frame_under_way_at_a_route_change_is_not_delivered() {
    let mut receiver =
        MediaReceiver::new(ReassemblyConfig::default(), wire(), stamp()).expect("receiver");
    let moved = stamp_at_route_epoch(stamp(), stamp().route_epoch + 1);
    let mut outcomes = Vec::new();
    for packet in packets(3) {
        outcomes.push(
            receiver
                .store(true, stamp(), media(&packet, stamp()), 10)
                .expect("stored"),
        );
    }
    let last = outcomes.pop().expect("complete");
    assert!(matches!(
        receiver.judge(stamp(), moved, last),
        Ok(MediaStep::Continue)
    ));
    let mut delivered = 0;
    for packet in packets(3) {
        let outcome = receiver
            .store(true, stamp(), media(&packet, stamp()), 20)
            .expect("stored");
        if let Ok(MediaStep::Deliver(_)) = receiver.judge(stamp(), stamp(), outcome) {
            delivered += 1;
        }
    }
    assert_eq!(delivered, 1);
}
