use latencydesk::control::{ControlKind, OutgoingControl, ReceivedControl};
use latencydesk::error::{ProtocolError, TransportError};
use latencydesk::media::{MediaPacket, MediaWire};
use latencydesk::reassembly::IngestOutcome;
use latencydesk::session::{
    compute_auth_tag, validate_max, AuthenticatedDatagramEndpoint, AuthenticatedSessionConfig,
    DatagramLimit, ExpectedState, HandshakeState, HelloMessage, SessionRole, SocketError,
};

const HEADER_LEN: usize = 44;
const WIRE_VERSION: u16 = 1;
const KEYFRAME: u16 = 1;

fn wire() -> MediaWire {
    MediaWire {
        header_len: HEADER_LEN,
        max_fragment_bytes: 1_406,
        max_frame_bytes: 16 * 1024 * 1024,
        no_dependency: u64::MAX,
        parity_flag: 0x8000,
    }
}

fn endpoint(role: SessionRole, path_mtu: usize) -> AuthenticatedDatagramEndpoint {
    let config = AuthenticatedSessionConfig {
        role,
        path_mtu,
        ..Default::default()
    };
    AuthenticatedDatagramEndpoint::new(config, wire(), WIRE_VERSION).expect("endpoint")
}

fn received<T>(sent: OutgoingControl<T>) -> Result<ReceivedControl<T>, ProtocolError> {
    Ok(ReceivedControl {
        kind: sent.kind,
        session_id: sent.session_id,
        body: Ok(sent.body),
    })
}

const FINGERPRINT: [u8; 32] = [0x55; 32];
const CLIENT_NONCE: [u8; 16] = [0xAA; 16];
const SERVER_NONCE: [u8; 16] = [0xBB; 16];
const TAG: [u8; 32] = [
    0xfa, 0x44, 0xa1, 0x92, 0x25, 0x7b, 0x48, 0x85, 0x27, 0xe8, 0x10, 0x63, 0x00, 0xe8, 0x8c, 0x8f,
    0x81, 0x31, 0xf4, 0x08, 0x8d, 0x55, 0x67, 0xd1, 0x46, 0x5b, 0x35, 0x26, 0x41, 0x90, 0xf6, 0x3f,
];

fn run_handshake(
    client: &mut AuthenticatedDatagramEndpoint,
    host: &mut AuthenticatedDatagramEndpoint,
    session_id: u64,
    epoch: u32,
) {
    let secret = [0x77_u8; 32];
    let hello = client
        .client_initiate_handshake(FINGERPRINT, CLIENT_NONCE)
        .expect("hello");
    client.hello_sent();
    let ack = host
        .host_handle_hello(received(hello), &[FINGERPRINT], SERVER_NONCE, session_id, epoch)
        .expect("hello_ack");
    host.hello_ack_sent();
    let auth = client
        .client_handle_hello_ack(received(ack), &secret)
        .expect("auth");
    let completed = host
        .host_handle_authenticate(received(auth), &secret)
        .expect("completed");
    client
        .client_handle_handshake_completed(received(completed))
        .expect("complete");
}

#[test]
fn authenticated_handshake_round_trip() {
    let mut client = endpoint(SessionRole::Client, 1_400);
    let mut host = endpoint(SessionRole::Host, 1_400);
    run_handshake(&mut client, &mut host, 0x1234_5678, 1);

    assert_eq!(client.handshake_state(), HandshakeState::Active);
    assert_eq!(host.handshake_state(), HandshakeState::Active);
    assert_eq!(client.session_id(), 0x1234_5678);
    assert_eq!(host.session_id(), 0x1234_5678);
    assert_eq!(client.authorization_epoch(), 1);
    assert_eq!(host.authorization_epoch(), 1);
}

#[test]
fn handshake_rejects_unpinned_device() {
    let mut client = endpoint(SessionRole::Client, 1_200);
    let mut host = endpoint(SessionRole::Host, 1_200);

    let unpinned_fingerprint = [0x99_u8; 32];
    let pinned_list = vec![[0x11_u8; 32], [0x22_u8; 32]];

    let hello = client
        .client_initiate_handshake(unpinned_fingerprint, [0xAA; 16])
        .expect("hello");

    let res = host.host_handle_hello(received(hello), &pinned_list, [0xBB; 16], 100, 1);
    assert!(matches!(res, Err(SocketError::DeviceNotPinned(_))));
    assert_eq!(host.handshake_state(), HandshakeState::Failed);
}

#[test]
fn handshake_rejects_invalid_auth_secret() {
    let mut client = endpoint(SessionRole::Client, 1_200);
    let mut host = endpoint(SessionRole::Host, 1_200);

    let fp = [0x55_u8; 32];
    let pinned = vec![fp];
    let hello = client
        .client_initiate_handshake(fp, [0xAA; 16])
        .expect("hello");
    client.hello_sent();
    let hello_ack = host
        .host_handle_hello(received(hello), &pinned, [0xBB; 16], 42, 1)
        .expect("hello_ack");
    host.hello_ack_sent();

    let wrong_client_secret = [0x11_u8; 32];
    let host_secret = [0x22_u8; 32];

    let auth_packet = client
        .client_handle_hello_ack(received(hello_ack), &wrong_client_secret)
        .expect("auth");
    let res = host.host_handle_authenticate(received(auth_packet), &host_secret);
    assert!(matches!(res, Err(SocketError::AuthenticationFailed)));
    assert_eq!(host.handshake_state(), HandshakeState::Failed);
}

#[test]
fn authenticated_media_frame_transfer_and_reassembly() {
    let mut client = endpoint(SessionRole::Client, 1_300);
    let mut host = endpoint(SessionRole::Host, 1_300);
    run_handshake(&mut client, &mut host, 999, 1);

    // Host sends a 10 KB video frame
    let frame: Vec<u8> = (0..10_000).map(|i| (i % 256) as u8).collect();
    let packets = host
        .send_media_frame(&frame, 1, KEYFRAME, 1, None, Ok(()))
        .expect("send");
    let bytes_sent: usize = packets
        .iter()
        .map(|packet| HEADER_LEN + packet.payload().len())
        .sum();
    assert!(bytes_sent > 10_000);

    // Client receives and reassembles all datagrams
    let mut completed = None;
    for (i, packet) in packets.into_iter().enumerate() {
        let len = HEADER_LEN + packet.payload().len();
        match client.receive_media_datagram(len, Ok(packet), i as u64 * 1_000) {
            Ok(IngestOutcome::Complete(reassembled)) => {
                completed = Some(reassembled.bytes);
                break;
            }
            Ok(IngestOutcome::Pending { .. }) => continue,
            Ok(IngestOutcome::Duplicate { .. }) => continue,
            Err(e) => panic!("receive failed: {e:?}"),
        }
    }
    assert_eq!(completed, Some(frame));
}

#[test]
fn codec_epoch_bump_and_congestion_adaptation() {
    let mut endpoint = endpoint(SessionRole::Host, 1_200);
    let mut client = self::endpoint(SessionRole::Client, 1_200);
    run_handshake(&mut client, &mut endpoint, 7, 1);

    assert_eq!(endpoint.codec_epoch(), 1);
    let signal = endpoint.bump_codec_epoch(2, 10_000).expect("bump");
    assert_eq!(signal.codec_epoch, 2);
    assert!(signal.force_keyframe);
    assert_eq!(endpoint.codec_epoch(), 2);

    // Non-monotonic bump fails
    assert!(endpoint.bump_codec_epoch(2, 20_000).is_err());
    assert!(endpoint.bump_codec_epoch(1, 30_000).is_err());

    // Congestion feedback adaptation
    let dec = endpoint.on_network_feedback(25_000_000, 0, 1_000_000, 40_000);
    assert!(dec.target_bitrate_bps >= 500_000);
    assert!(dec.target_bitrate_bps <= 100_000_000);
    assert!(dec.target_fps >= 15);
    assert!(dec.target_fps <= 120);
}

#[test]
fn auth_tag_has_its_exact_value() {
    let tag = compute_auth_tag(&[0x77; 32], 0x1234_5678, 1, &CLIENT_NONCE, &SERVER_NONCE);
    assert_eq!(tag, TAG);
    let other = compute_auth_tag(&[0x77; 32], 0x1234_5679, 1, &CLIENT_NONCE, &SERVER_NONCE);
    assert_ne!(tag, other);
}

#[test]
fn datagram_sizes_are_bounded() {
    assert_eq!(validate_max(63), Err(SocketError::DatagramSize(63)));
    assert_eq!(validate_max(65_508), Err(SocketError::DatagramSize(65_508)));
    let limit = validate_max(1_200).expect("limit");
    assert_eq!(limit, DatagramLimit { max_datagram: 1_200 });
    assert_eq!(limit.check_send(0), Err(SocketError::DatagramSize(0)));
    assert_eq!(limit.check_send(1_201), Err(SocketError::DatagramSize(1_201)));
    assert_eq!(limit.check_send(1_200), Ok(()));
    assert_eq!(limit.check_written(10, 10), Ok(10));
    assert_eq!(
        limit.check_written(10, 9),
        Err(SocketError::ShortWrite {
            expected: 10,
            actual: 9,
        })
    );
    assert_eq!(
        limit.check_buffer(1_199),
        Err(SocketError::ReceiveBuffer {
            required: 1_200,
            actual: 1_199,
        })
    );
    assert_eq!(limit.check_read(0), Err(SocketError::DatagramSize(0)));
    assert_eq!(limit.check_read(5), Ok(5));
}

#[test]
fn roles_and_states_are_enforced() {
    let mut host = endpoint(SessionRole::Host, 1_200);
    let mut client = endpoint(SessionRole::Client, 1_200);
    assert_eq!(
        host.client_initiate_handshake([1; 32], [2; 16]).err(),
        Some(SocketError::InvalidHandshakeRole)
    );
    let hello = ReceivedControl {
        kind: ControlKind::Hello,
        session_id: 0,
        body: Ok(HelloMessage {
            client_version: WIRE_VERSION,
            client_nonce: [2; 16],
            device_fingerprint: [1; 32],
            capabilities_mask: 1,
            proposed_mtu: 1_200,
        }),
    };
    assert_eq!(
        client
            .host_handle_hello(Ok(hello), &[[1; 32]], [3; 16], 1, 1)
            .err(),
        Some(SocketError::InvalidHandshakeRole)
    );
    assert_eq!(
        host.host_handle_hello(
            Err(ProtocolError::Malformed(3)),
            &[[1; 32]],
            [3; 16],
            1,
            1
        )
        .err(),
        Some(SocketError::Protocol(ProtocolError::Malformed(3)))
    );
    let wrong_kind: ReceivedControl<HelloMessage> = ReceivedControl {
        kind: ControlKind::Capabilities,
        session_id: 0,
        body: Err(ProtocolError::Malformed(1)),
    };
    assert_eq!(
        host.host_handle_hello(Ok(wrong_kind), &[[1; 32]], [3; 16], 1, 1)
            .err(),
        Some(SocketError::UnexpectedControlKind(ControlKind::Capabilities))
    );
    let early = OutgoingControl {
        kind: ControlKind::Authenticate,
        session_id: 5,
        body: latencydesk::session::AuthenticateMessage {
            session_id: 5,
            authorization_epoch: 1,
            auth_tag: [0; 32],
            client_nonce: [0; 16],
        },
    };
    assert_eq!(
        host.host_handle_authenticate(received(early), &[0; 32]).err(),
        Some(SocketError::InvalidHandshakeState {
            expected: ExpectedState::HelloAckSent,
            actual: HandshakeState::Initial,
        })
    );
}

#[test]
fn inactive_session_carries_no_media() {
    let host = endpoint(SessionRole::Host, 1_200);
    assert_eq!(
        host.send_media_frame(&[1; 10], 1, KEYFRAME, 1, None, Ok(())).err(),
        Some(SocketError::SessionNotActive)
    );
}

#[test]
fn media_faults_keep_their_cause() {
    let mut client = endpoint(SessionRole::Client, 1_300);
    let mut host = endpoint(SessionRole::Host, 1_300);
    run_handshake(&mut client, &mut host, 999, 1);
    assert_eq!(
        host.send_media_frame(&[], 1, KEYFRAME, 1, None, Ok(())).err(),
        Some(SocketError::Transport(TransportError::FrameLength(0)))
    );
    let none: Result<MediaPacket, ProtocolError> = Err(ProtocolError::Malformed(2));
    assert_eq!(
        client.receive_media_datagram(10, none, 0).err(),
        Some(SocketError::Protocol(ProtocolError::Malformed(2)))
    );
}

#[test]
fn control_records_belong_to_the_session() {
    let mut client = endpoint(SessionRole::Client, 1_300);
    let mut host = endpoint(SessionRole::Host, 1_300);
    run_handshake(&mut client, &mut host, 999, 1);
    assert_eq!(client.receive_control(Ok(999)), Ok(()));
    assert_eq!(
        client.receive_control(Ok(998)),
        Err(SocketError::SessionIdMismatch {
            expected: 999,
            actual: 998,
        })
    );
}

#[test]
fn authorization_epoch_only_rises() {
    let mut client = endpoint(SessionRole::Client, 1_300);
    let mut host = endpoint(SessionRole::Host, 1_300);
    run_handshake(&mut client, &mut host, 999, 4);
    assert_eq!(
        host.bump_authorization_epoch(4).err(),
        Some(SocketError::NonMonotonicEpoch {
            attempted: 4,
            current: 4,
        })
    );
    assert!(host.bump_authorization_epoch(5).is_ok());
    assert_eq!(host.authorization_epoch(), 5);
}

#[test]
fn handshake_states_keep_what_was_exchanged() {
    let mut client = endpoint(SessionRole::Client, 1_200);
    let mut host = endpoint(SessionRole::Host, 1_200);
    let hello = client
        .client_initiate_handshake(FINGERPRINT, CLIENT_NONCE)
        .expect("hello");
    assert_eq!(client.handshake_state(), HandshakeState::Initial);
    client.hello_sent();
    assert_eq!(
        client.handshake_state(),
        HandshakeState::HelloSent {
            client_nonce: CLIENT_NONCE,
        }
    );
    host.host_handle_hello(received(hello), &[FINGERPRINT], SERVER_NONCE, 8, 1)
        .expect("hello_ack");
    host.hello_ack_sent();
    assert_eq!(
        host.handshake_state(),
        HandshakeState::HelloAckSent {
            server_nonce: SERVER_NONCE,
            client_nonce: CLIENT_NONCE,
            device_fingerprint: FINGERPRINT,
        }
    );
}

fn active_pair() -> (AuthenticatedDatagramEndpoint, AuthenticatedDatagramEndpoint) {
    let mut client = endpoint(SessionRole::Client, 1_300);
    let mut host = endpoint(SessionRole::Host, 1_300);
    run_handshake(&mut client, &mut host, 999, 1);
    (client, host)
}

fn sent(
    host: &AuthenticatedDatagramEndpoint,
    frame: &[u8],
    frame_id: u64,
) -> Vec<(usize, MediaPacket)> {
    host.send_media_frame(frame, 1, KEYFRAME, frame_id, None, Ok(()))
        .expect("send")
        .into_iter()
        .map(|packet| (HEADER_LEN + packet.payload().len(), packet))
        .collect()
}

#[test]
fn delivered_frame_is_not_delivered_again() {
    let (mut client, host) = active_pair();
    for (len, packet) in sent(&host, &[7; 100], 5) {
        assert!(matches!(
            client.receive_media_datagram(len, Ok(packet), 10),
            Ok(IngestOutcome::Complete(_))
        ));
    }
    for now_ns in [11, 20_000_000_000] {
        for (len, packet) in sent(&host, &[7; 100], 5) {
            assert_eq!(
                client.receive_media_datagram(len, Ok(packet), now_ns).err(),
                Some(SocketError::Transport(TransportError::ReplayDetected(5)))
            );
        }
    }
    for (len, packet) in sent(&host, &[8; 100], 4) {
        assert!(matches!(
            client.receive_media_datagram(len, Ok(packet), 12),
            Ok(IngestOutcome::Complete(_))
        ));
    }
}

#[test]
fn fragments_of_one_frame_are_no_replay() {
    let (mut client, host) = active_pair();
    let frame: Vec<u8> = (0..4_000).map(|index| (index % 251) as u8).collect();
    let mut packets = sent(&host, &frame, 9);
    packets.reverse();
    let last = packets.len() - 1;
    assert!(last > 1);
    for (index, (len, packet)) in packets.into_iter().enumerate() {
        match client.receive_media_datagram(len, Ok(packet), index as u64) {
            Ok(IngestOutcome::Complete(complete)) => {
                assert_eq!(index, last);
                assert_eq!(complete.bytes, frame);
            }
            Ok(IngestOutcome::Pending { .. }) => assert!(index < last),
            other => panic!("unexpected {other:?}"),
        }
    }
    for (len, packet) in sent(&host, &frame, 9) {
        assert_eq!(
            client.receive_media_datagram(len, Ok(packet), 100).err(),
            Some(SocketError::Transport(TransportError::ReplayDetected(9)))
        );
    }
}

#[test]
fn frames_without_a_number_are_delivered_each_time() {
    let (mut client, host) = active_pair();
    for now_ns in [1, 2] {
        for (len, packet) in sent(&host, &[7; 100], 0) {
            assert!(matches!(
                client.receive_media_datagram(len, Ok(packet), now_ns),
                Ok(IngestOutcome::Complete(_))
            ));
        }
    }
}

#[test]
fn refused_packets_are_not_sent() {
    let (_client, host) = active_pair();
    assert_eq!(
        host.send_media_frame(
            &[1; 10],
            1,
            KEYFRAME,
            1,
            Some(1),
            Err(ProtocolError::Malformed(4)),
        )
        .err(),
        Some(SocketError::Transport(TransportError::Protocol(
            ProtocolError::Malformed(4)
        )))
    );
    assert_eq!(host.fragment_spec(1, KEYFRAME, 3, None).codec_epoch, 1);
}

#[test]
fn every_other_secret_is_refused() {
    let secret = [0x77_u8; 32];
    let right = compute_auth_tag(&secret, 7, 1, &CLIENT_NONCE, &SERVER_NONCE);
    for at in 0..32 {
        let mut other = secret;
        other[at] ^= 1;
        let tag = compute_auth_tag(&other, 7, 1, &CLIENT_NONCE, &SERVER_NONCE);
        assert_ne!(tag, right);

        let mut client = endpoint(SessionRole::Client, 1_200);
        let mut host = endpoint(SessionRole::Host, 1_200);
        let hello = client
            .client_initiate_handshake(FINGERPRINT, CLIENT_NONCE)
            .expect("hello");
        client.hello_sent();
        let ack = host
            .host_handle_hello(received(hello), &[FINGERPRINT], SERVER_NONCE, 7, 1)
            .expect("hello_ack");
        host.hello_ack_sent();
        let auth = client
            .client_handle_hello_ack(received(ack), &other)
            .expect("auth");
        assert_eq!(
            host.host_handle_authenticate(received(auth), &secret).err(),
            Some(SocketError::AuthenticationFailed)
        );
        assert_eq!(host.handshake_state(), HandshakeState::Failed);
    }
    assert_ne!(
        compute_auth_tag(&secret, 7, 2, &CLIENT_NONCE, &SERVER_NONCE),
        right
    );
    assert_ne!(
        compute_auth_tag(&secret, 7, 1, &SERVER_NONCE, &SERVER_NONCE),
        right
    );
}
