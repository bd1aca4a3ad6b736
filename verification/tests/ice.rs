use latencydesk::address::{IpAddress, SocketAddress};
use latencydesk::entropy::{
    judge_draw, keep_filled, nonzero_from_bytes, random_bytes, random_nonzero_u64, wipe_bytes,
    wipe_text, DrawStep, MAX_NONZERO_DRAWS,
};
use latencydesk::ice::{
    encode_ice_entropy, CandidateType, Ice, IceCandidate, IceConfig, IceCredentials, IceError,
    IceEvent, IceRole, IceState, SignaledCandidate, SignaledCredentials, ICE_PASSWORD_LEN,
    ICE_UFRAG_LEN, MAX_ICE_CANDIDATES, MAX_ICE_DATAGRAM_BYTES, MAX_ICE_IGNORED_DATAGRAMS,
    MAX_ICE_PAIRS,
};
use latencydesk::ice_run::{
    check_handoff_role, judge_cancel, judge_drain, judge_handoff, judge_send, judge_wait,
    pause_before_next_round, DrainOutcome, IceRun, IceRunControl, NominatedPath, SendOutcome,
    WorkerExit, MAX_ICE_DRAIN_DATAGRAMS, MAX_ICE_INBOUND_DATAGRAMS, MAX_ICE_OUTBOUND_DATAGRAMS,
    MAX_ICE_SEND_ATTEMPTS,
};
use latencydesk::product::{IceCredentialExchange, IceCredentialRole};

const LOCALHOST: IpAddress = IpAddress::V4(0x7f00_0001);

fn v4(last: u32, port: u16) -> SocketAddress {
    SocketAddress::new(IpAddress::V4(0x7f00_0000 + last), port)
}

fn v6(port: u16) -> SocketAddress {
    SocketAddress::new(IpAddress::V6(1), port)
}

fn credentials(label: char) -> IceCredentials {
    IceCredentials::from_parts(
        format!("{label}ufrag012345678"),
        std::iter::repeat(label).take(ICE_PASSWORD_LEN).collect(),
    )
    .expect("fixed credentials")
}

fn fast_config() -> IceConfig {
    IceConfig {
        timing_advance_ns: 10_000_000,
        initial_rto_ns: 20_000_000,
        max_rto_ns: 100_000_000,
        max_retransmits: 4,
        establishment_deadline_ns: 5_000_000_000,
    }
}

fn signaled(role: IceCredentialRole, ufrag: &str, password: String) -> SignaledCredentials {
    SignaledCredentials {
        exchange: IceCredentialExchange {
            exchange_id: 7,
            generation: 1,
            role,
        },
        ufrag: ufrag.to_string(),
        password,
    }
}

#[test]
fn credentials_are_os_random_bounded_and_redacted() {
    let first = IceCredentials::generate().expect("credentials");
    let second = IceCredentials::generate().expect("credentials");
    assert!(!first.same(&second));
    assert_eq!(first.ufrag().len(), ICE_UFRAG_LEN);
    assert_eq!(first.password_len(), ICE_PASSWORD_LEN);
    let fixed = credentials('s');
    let rendered = fixed.redacted();
    assert!(!rendered.contains(fixed.ufrag()));
    assert!(!rendered.contains(&"s".repeat(ICE_PASSWORD_LEN)));
    assert!(IceCredentials::from_parts("bad!".into(), "x".repeat(22)).is_err());

    let signaled = signaled(IceCredentialRole::Controlled, "peerUfrag", "P".repeat(22));
    let converted = IceCredentials::from_signaling(&signaled).unwrap_or_else(|_| panic!("signal"));
    assert_eq!(converted.ufrag(), "peerUfrag");
    assert_eq!(converted.password_len(), 22);
    assert_eq!(
        IceRole::from_signaling(signaled.exchange.role),
        IceRole::Controlled
    );
    assert_eq!(
        IceRole::Controlling.to_signaling(),
        IceCredentialRole::Controlling
    );
}

#[test]
fn ice_credentials_debug_redacts_secret_and_role_is_explicit() {
    let value = signaled(
        IceCredentialRole::Controlled,
        "ufrag",
        "abcdefghijklmnopqrstuv".into(),
    );
    let credentials =
        IceCredentials::from_signaling(&value).unwrap_or_else(|_| panic!("credentials"));
    let debug = credentials.redacted();
    assert!(!debug.contains("abcdefghijklmnopqrstuv"));
    assert!(debug.contains("<redacted>"));
}

#[test]
fn protocol_candidates_convert_only_supported_udp_shapes() {
    let host = SignaledCandidate {
        component: 1,
        is_udp: true,
        candidate_type: CandidateType::Host,
        ip: LOCALHOST,
        port: 5000,
        related_address: None,
        is_sound: true,
    };
    assert_eq!(
        IceCandidate::from_protocol(host).unwrap(),
        IceCandidate::host(v4(1, 5000))
    );
    let mut tcp = host;
    tcp.is_udp = false;
    assert!(matches!(
        IceCandidate::from_protocol(tcp),
        Err(IceError::UnsupportedCandidate)
    ));
    let mut srflx = host;
    srflx.candidate_type = CandidateType::ServerReflexive;
    assert!(matches!(
        IceCandidate::from_protocol(srflx),
        Err(IceError::UnsupportedCandidate)
    ));

    let mut srflx = host;
    srflx.candidate_type = CandidateType::ServerReflexive;
    srflx.ip = IpAddress::V4(0x7f00_0002);
    srflx.related_address = Some((LOCALHOST, 5000));
    assert!(IceCandidate::from_protocol(srflx).is_ok());
    assert!(matches!(
        IceCandidate::from_probe_protocol(srflx),
        Err(IceError::UnsupportedCandidate)
    ));

    let exchange = [host];
    assert!(IceCandidate::probe_remote_from_exchange(&exchange, v4(1, 4000)).is_ok());
    assert!(matches!(
        IceCandidate::probe_remote_from_exchange(&exchange, v4(1, 5000)),
        Err(IceError::InvalidProbeCandidateSet)
    ));
    assert!(matches!(
        IceCandidate::probe_remote_from_exchange(&exchange, v4(2, 4000)),
        Err(IceError::InvalidProbeCandidateSet)
    ));
    let multiple = [host, host];
    assert!(matches!(
        IceCandidate::probe_remote_from_exchange(&multiple, v4(1, 4000)),
        Err(IceError::InvalidProbeCandidateSet)
    ));
    let ipv6 = [SignaledCandidate {
        ip: IpAddress::V6(1),
        ..host
    }];
    assert!(matches!(
        IceCandidate::probe_remote_from_exchange(&ipv6, v6(4000)),
        Err(IceError::InvalidProbeCandidateSet)
    ));
}

#[test]
fn candidate_and_policy_bounds_fail_closed() {
    let mut ice = Ice::with_config(IceRole::Controlled, fast_config(), 0)
        .unwrap_or_else(|_| panic!("agent"));
    for index in 0..MAX_ICE_CANDIDATES {
        ice.add_local_candidate(IceCandidate::host(v4(1, 10_000 + index as u16)), true)
            .expect("bounded local candidate");
    }
    assert!(matches!(
        ice.add_local_candidate(IceCandidate::host(v4(1, 20_000)), true),
        Err(IceError::CandidateLimit)
    ));
    let first_remote = IceCandidate::host(v4(1, 30_000));
    assert!(ice.add_remote_candidate(first_remote, true).is_ok());
    assert!(matches!(
        ice.add_remote_candidate(first_remote, true),
        Err(IceError::DuplicateCandidate)
    ));
    assert!(matches!(
        ice.add_remote_candidate(IceCandidate::host(v6(10_001)), true),
        Err(IceError::MixedAddressFamily)
    ));
    for index in 1..MAX_ICE_CANDIDATES {
        ice.add_remote_candidate(IceCandidate::host(v4(1, 30_000 + index as u16)), true)
            .expect("bounded remote candidate");
    }
    assert_eq!(ice.candidate_counts(), (8, 8));
    assert_eq!(ice.candidate_pair_upper_bound(), MAX_ICE_PAIRS);
    assert!(IceConfig {
        establishment_deadline_ns: 0,
        ..fast_config()
    }
    .validate()
    .is_err());

    let expiring = Ice::with_config(IceRole::Controlled, fast_config(), 0)
        .unwrap_or_else(|_| panic!("agent"));
    assert!(matches!(
        expiring.advance(5_000_000_000),
        Err(IceError::EstablishmentDeadlineExceeded)
    ));
    assert_eq!(expiring.advance(4_999_999_999), Ok(()));
}

fn connected_pair() -> Ice {
    let mut ice = Ice::with_config(IceRole::Controlled, fast_config(), 0)
        .unwrap_or_else(|_| panic!("agent"));
    ice.add_local_candidate(IceCandidate::host(v4(1, 4_000)), true)
        .expect("local");
    ice.add_remote_candidate(IceCandidate::host(v4(1, 5_000)), true)
        .expect("remote");
    ice
}

/// A binding indication without attributes.
fn indication() -> Vec<u8> {
    let mut bytes = vec![0x00, 0x11, 0x00, 0x00, 0x21, 0x12, 0xa4, 0x42];
    bytes.extend_from_slice(&[9; 12]);
    bytes
}

#[test]
fn only_well_formed_messages_reach_the_agent() {
    let mut ice = connected_pair();
    let (source, destination) = (v4(1, 5_000), v4(1, 4_000));
    let message = indication();
    assert_eq!(
        ice.check_datagram(1, source, destination, &message, true),
        Ok(())
    );
    assert_eq!(
        ice.check_datagram(1, source, destination, &message, false),
        Err(IceError::InvalidDatagram)
    );
    let mut wrong_cookie = message.clone();
    wrong_cookie[4] = 0;
    assert_eq!(
        ice.check_datagram(1, source, destination, &wrong_cookie, true),
        Err(IceError::InvalidDatagram)
    );
    assert_eq!(
        ice.handle_datagram(
            1,
            source,
            destination,
            &wrong_cookie,
            true,
            true,
            IceState::Connected
        ),
        Err(IceError::InvalidDatagram)
    );
    assert!(ice.expired(5_000_000_000));
    assert_eq!(
        ice.handle_datagram(
            1,
            source,
            destination,
            &message,
            true,
            true,
            IceState::Connected
        ),
        Ok(true)
    );
    assert!(!ice.expired(5_000_000_000));
}

#[test]
fn datagram_envelope_is_checked_before_parsing() {
    let mut ice = connected_pair();
    let (source, destination) = (v4(1, 5_000), v4(1, 4_000));
    assert_eq!(
        ice.check_envelope(1, source, destination, 0),
        Err(IceError::InvalidDatagram)
    );
    assert_eq!(
        ice.check_envelope(1, source, destination, MAX_ICE_DATAGRAM_BYTES + 1),
        Err(IceError::InvalidDatagram)
    );
    assert_eq!(
        ice.check_envelope(1, v6(5_000), destination, 20),
        Err(IceError::InvalidDatagram)
    );
    assert_eq!(
        ice.check_envelope(1, source, v4(1, 4_001), 20),
        Err(IceError::UnexpectedDatagramDestination)
    );
    assert_eq!(
        ice.check_envelope(5_000_000_000, source, destination, 20),
        Err(IceError::EstablishmentDeadlineExceeded)
    );
    assert_eq!(
        ice.judge_datagram(1, source, destination, 20, true, false, IceState::Checking),
        Ok(false)
    );
    assert!(ice.expired(5_000_000_000));
    assert_eq!(
        ice.check_transmit(destination, source, MAX_ICE_DATAGRAM_BYTES + 1),
        Err(IceError::OversizedTransmit(MAX_ICE_DATAGRAM_BYTES + 1))
    );
    assert_eq!(
        ice.check_transmit(v4(1, 4_001), source, 20),
        Err(IceError::AgentInvariant)
    );
    assert_eq!(ice.check_transmit(destination, source, 20), Ok(()));
}

#[test]
fn signaled_credentials_survive() {
    let mine = credentials('m');
    let signaled = mine
        .to_signaling(9, 3, IceRole::Controlling, true)
        .unwrap_or_else(|_| panic!("signaling"));
    assert_eq!(signaled.exchange.exchange_id, 9);
    assert_eq!(signaled.exchange.generation, 3);
    assert_eq!(signaled.exchange.role, IceCredentialRole::Controlling);
    let read = IceCredentials::from_signaling(&signaled).unwrap_or_else(|_| panic!("read"));
    assert!(read.same(&mine));
    assert!(mine.copied().same(&mine));
    assert_eq!(
        mine.to_signaling(9, 3, IceRole::Controlling, false).err(),
        Some(IceError::InvalidCredentials)
    );
    let (ufrag, password) = mine.to_core();
    assert_eq!(ufrag, "mufrag012345678");
    assert_eq!(password, "m".repeat(ICE_PASSWORD_LEN));
}

#[test]
fn remote_credentials_cannot_change() {
    let mut ice = connected_pair();
    assert_eq!(ice.set_remote_credentials(&credentials('a')), Ok(true));
    assert_eq!(ice.set_remote_credentials(&credentials('a')), Ok(false));
    assert_eq!(
        ice.set_remote_credentials(&credentials('b')),
        Err(IceError::RemoteCredentialsChanged)
    );
}

#[test]
fn entropy_maps_to_the_ice_alphabet() {
    assert_eq!(encode_ice_entropy(&[0, 25, 26, 51, 52, 61, 62, 63]), "AZaz09+/");
    assert_eq!(encode_ice_entropy(&[64, 255]), "A/");
    let fixed = IceCredentials::from_entropy(&[1; ICE_UFRAG_LEN], &[2; ICE_PASSWORD_LEN])
        .unwrap_or_else(|_| panic!("credentials"));
    assert_eq!(fixed.ufrag(), "B".repeat(ICE_UFRAG_LEN));
}

#[test]
fn secrets_are_wiped_and_randomness_is_fresh() {
    let mut bytes = vec![1, 2, 3];
    wipe_bytes(&mut bytes);
    assert!(bytes.is_empty());
    let mut text = String::from("secret");
    wipe_text(&mut text);
    assert!(text.is_empty());
    let first = random_bytes(32).expect("entropy");
    let second = random_bytes(32).expect("entropy");
    assert_eq!(first.len(), 32);
    assert_ne!(first, second);
    assert_ne!(random_nonzero_u64().expect("entropy"), 0);
    assert_eq!(nonzero_from_bytes(&[0; 8]), None);
    assert!(nonzero_from_bytes(&[0, 0, 0, 0, 0, 0, 0, 1]).is_some());
}

#[test]
fn draws_stop_at_the_first_number_or_the_last_attempt() {
    let zero = Some(vec![0; 8]);
    let number = Some(vec![0, 0, 0, 0, 0, 0, 1, 2]);
    let last = MAX_NONZERO_DRAWS - 1;
    assert_eq!(judge_draw(0, &number), DrawStep::Done(Some(258)));
    assert_eq!(judge_draw(last, &number), DrawStep::Done(Some(258)));
    assert_eq!(judge_draw(0, &zero), DrawStep::Again);
    assert_eq!(judge_draw(last - 1, &zero), DrawStep::Again);
    assert_eq!(judge_draw(last, &zero), DrawStep::Done(None));
    assert_eq!(judge_draw(0, &None), DrawStep::Done(None));
    assert_eq!(keep_filled(vec![1, 2], true), Some(vec![1, 2]));
    assert_eq!(keep_filled(vec![1, 2], false), None);
    assert_eq!(random_bytes(0), Some(vec![]));
}

#[test]
fn unusable_addresses_are_no_candidates() {
    for address in [
        v4(1, 0),
        SocketAddress::new(IpAddress::V4(0), 5_000),
        SocketAddress::new(IpAddress::V4(0xe000_0001), 5_000),
        SocketAddress::new(IpAddress::V4(0xffff_ffff), 5_000),
    ] {
        assert!(!address.is_usable_address());
        assert_eq!(
            IceCandidate::host(address).validate(),
            Err(IceError::UnsupportedCandidate)
        );
    }
    assert!(IceCandidate::host(v4(1, 5_000)).validate().is_ok());
    assert!(IpAddress::V6(0).is_unspecified());
    assert!(IpAddress::V6(0xff02_0000_0000_0000_0000_0000_0000_0001).is_multicast());
}

#[test]
fn run_needs_its_socket_among_the_candidates() {
    let ice = connected_pair();
    assert!(IceRun::start(&ice, v4(1, 4_000)).is_ok());
    assert!(IceRun::start(&ice, v4(1, 4_001)).is_err());
}

#[test]
fn run_counts_traffic_up_to_its_limits() {
    let ice = connected_pair();
    let mut run = IceRun::start(&ice, v4(1, 4_000)).expect("run");
    for _ in 0..MAX_ICE_OUTBOUND_DATAGRAMS {
        assert_eq!(run.count_sent(), Ok(()));
    }
    assert_eq!(run.count_sent(), Err(IceError::TrafficLimit));
    let mut run = IceRun::start(&ice, v4(1, 4_000)).expect("run");
    for _ in 0..MAX_ICE_INBOUND_DATAGRAMS {
        run.received_this_round = 0;
        assert_eq!(run.count_received(10), Ok(()));
    }
    run.received_this_round = 0;
    assert_eq!(run.count_received(10), Err(IceError::TrafficLimit));
    let mut run = IceRun::start(&ice, v4(1, 4_000)).expect("run");
    for _ in 0..MAX_ICE_IGNORED_DATAGRAMS {
        assert_eq!(run.judge_handled(Ok(false)), Ok(()));
    }
    assert_eq!(
        run.judge_handled(Err(IceError::InvalidDatagram)),
        Err(IceError::IgnoredDatagramLimit)
    );
    assert_eq!(run.judge_handled(Ok(true)), Ok(()));
}

#[test]
fn nomination_and_handoff_are_two_phases() {
    let mut ice = connected_pair();
    let mut run = IceRun::start(&ice, v4(1, 4_000)).expect("run");
    let mut control = IceRunControl::new();
    assert_eq!(run.begin_round(&control, &ice, 1), Ok(()));
    let path = NominatedPath {
        source: v4(1, 4_000),
        destination: v4(1, 5_000),
    };
    run.take_event(
        &mut control,
        IceEvent::Nominated {
            source: path.source,
            destination: path.destination,
        },
    )
    .expect("nominated");
    assert!(control.is_nominated());
    assert_eq!(run.handoff_path(&control, IceState::Connected), None);
    control.request_handoff();
    assert!(control.handoff_requested());
    ice.update_connected_state(IceState::Connected);
    assert_eq!(
        run.handoff_path(&control, IceState::Connected),
        Some(path)
    );
    assert_eq!(run.handoff_path(&control, IceState::Disconnected), None);
    assert_eq!(run.check_source(v4(1, 4_000)), Ok(()));
    assert!(run.check_source(v4(1, 4_001)).is_err());
    control.cancel();
    assert!(control.is_cancelled());
    assert_eq!(
        run.begin_round(&control, &ice, 1),
        Err(IceError::Cancelled)
    );
    assert_eq!(
        check_handoff_role(&ice, IceRole::Controlled),
        Ok(IceRole::Controlled)
    );
}

#[test]
fn sends_and_drains_are_bounded() {
    assert_eq!(judge_send(0, SendOutcome::Sent(10), 10), Ok(true));
    assert!(judge_send(0, SendOutcome::Sent(9), 10).is_err());
    assert_eq!(judge_send(0, SendOutcome::WouldBlock, 10), Ok(false));
    assert!(judge_send(MAX_ICE_SEND_ATTEMPTS - 1, SendOutcome::WouldBlock, 10).is_err());
    assert_eq!(judge_send(0, SendOutcome::Failed, 10), Err(IceError::Io));
    assert_eq!(judge_drain(0, DrainOutcome::WouldBlock), Ok(true));
    assert_eq!(judge_drain(0, DrainOutcome::Datagram), Ok(false));
    assert!(judge_drain(MAX_ICE_DRAIN_DATAGRAMS - 1, DrainOutcome::Datagram).is_err());
    assert_eq!(judge_drain(0, DrainOutcome::Failed), Err(IceError::Io));
    assert_eq!(pause_before_next_round(None), 5_000_000);
    assert_eq!(pause_before_next_round(Some(9_000_000_000)), 5_000_000);
    assert_eq!(pause_before_next_round(Some(2_000_000)), 2_000_000);
}

#[test]
fn worker_exits_are_told_apart() {
    assert_eq!(judge_wait(WorkerExit::Failed(IceError::Io)), IceError::Io);
    assert_eq!(judge_wait(WorkerExit::Panicked), IceError::WorkerFailed);
    assert_eq!(judge_handoff(WorkerExit::HandedOff), Ok(()));
    assert_eq!(
        judge_handoff(WorkerExit::TimedOut),
        Err(IceError::WorkerTimeout)
    );
    assert_eq!(
        judge_cancel(WorkerExit::Failed(IceError::Cancelled)),
        Ok(())
    );
}

#[test]
fn control_requests_are_never_taken_back() {
    let mut control = IceRunControl::new();
    control.cancel();
    assert!(control.is_cancelled());
    assert!(!control.handoff_requested());
    assert!(!control.is_nominated());
    control.request_handoff();
    control.cancel();
    assert!(control.is_cancelled());
    assert!(control.handoff_requested());
    assert!(!control.is_nominated());
}

#[test]
fn shared_control_reaches_everyone_who_holds_it() {
    let control = std::sync::Arc::new(std::sync::Mutex::new(IceRunControl::new()));
    let before = std::sync::Arc::clone(&control);
    control.lock().expect("control").cancel();
    let after = std::sync::Arc::clone(&before);
    assert!(before.lock().expect("control").is_cancelled());
    assert!(after.lock().expect("control").is_cancelled());
    assert!(!after.lock().expect("control").handoff_requested());
    assert!(!IceRunControl::new().is_cancelled());
}
