use latencydesk::address::{IpAddress, SocketAddress};
use latencydesk::turn::{
    attempt_timeout, check_transmit, check_written, id_from_bytes, judge_datagram, judge_refresh,
    refresh_delay_ns, require_success, signed_attributes, transaction_id, validate_config,
    validate_relayed, LiveState, TurnAttribute, TurnClass, TurnDatagram, TurnError, TurnInbound,
    TurnMessage, TurnMethod, TurnQueue, TurnRouteConfig, TurnStep, TurnTranscript, TurnWire,
    MAX_QUEUE,
};

const SECOND: u64 = 1_000_000_000;
const ID: [u8; 12] = [3; 12];

fn wire() -> TurnWire {
    TurnWire {
        max_datagram_bytes: 1_500,
        channel_min: 0x4000,
        channel_max: 0x4fff,
        permission_lifetime_s: 300,
    }
}

fn v4(port: u16) -> SocketAddress {
    SocketAddress::new(IpAddress::V4(0x7f00_0001), port)
}

fn config() -> TurnRouteConfig {
    TurnRouteConfig {
        server: v4(3478),
        bind: v4(0),
        username: b"alice".to_vec(),
        password: b"0123456789abcdef-password".to_vec(),
        peer: v4(4000),
        channel: 0x4000,
        timeout_ns: 5 * SECOND,
    }
}

#[test]
fn config_debug_redacts_secret_and_accepts_ephemeral_bind() {
    let config = config();
    let rendered = config.redacted("127.0.0.1:3478", "127.0.0.1:0", "127.0.0.1:4000", "5s");
    assert!(!rendered.contains("0123456789"));
    assert!(!rendered.contains("alice"));
    assert_eq!(
        rendered,
        format!(
            "TurnRouteConfig {{ server: 127.0.0.1:3478, bind: 127.0.0.1:0, username: \"<redacted>\", password: \"<redacted>\", peer: 127.0.0.1:4000, channel: {}, timeout: 5s }}",
            config.channel
        )
    );
    assert!(validate_config(&config, wire()).is_ok());
}

#[test]
fn max_payload_matches_channel_data_wire_bound() {
    assert_eq!(wire().max_payload() + 4, wire().max_datagram_bytes);
}

#[test]
fn config_faults_are_refused() {
    let broken = [
        TurnRouteConfig {
            server: v4(0),
            ..config()
        },
        TurnRouteConfig {
            peer: v4(3478),
            ..config()
        },
        TurnRouteConfig {
            bind: SocketAddress::new(IpAddress::V6(1), 0),
            ..config()
        },
        TurnRouteConfig {
            username: vec![],
            ..config()
        },
        TurnRouteConfig {
            password: vec![1; 15],
            ..config()
        },
        TurnRouteConfig {
            timeout_ns: 0,
            ..config()
        },
        TurnRouteConfig {
            timeout_ns: 121 * SECOND,
            ..config()
        },
        TurnRouteConfig {
            channel: 0x5000,
            ..config()
        },
    ];
    for entry in broken {
        assert_eq!(
            validate_config(&entry, wire()),
            Err(TurnError::InvalidConfiguration)
        );
    }
}

fn reply(class: TurnClass, method: TurnMethod, attributes: Vec<TurnAttribute>) -> TurnMessage {
    TurnMessage {
        class,
        method,
        transaction_id: ID,
        attributes,
    }
}

fn challenge() -> TurnMessage {
    reply(
        TurnClass::Error,
        TurnMethod::Allocate,
        vec![
            TurnAttribute::ErrorCode(401),
            TurnAttribute::Realm(b"local.test".to_vec()),
            TurnAttribute::Nonce(b"nonce-1".to_vec()),
        ],
    )
}

fn allocated(relay: SocketAddress, lifetime: u32) -> TurnMessage {
    reply(
        TurnClass::Success,
        TurnMethod::Allocate,
        vec![
            TurnAttribute::XorRelayedAddress(relay),
            TurnAttribute::Lifetime(lifetime),
        ],
    )
}

fn transcript() -> TurnTranscript {
    TurnTranscript::new(v4(3478), v4(4000), 0x4000, b"alice".to_vec())
}

#[test]
fn four_replies_establish_a_route() {
    let mut transcript = transcript();
    let first = transcript.next_request().expect("request");
    assert_eq!(first.method, TurnMethod::Allocate);
    assert!(!first.signed);
    assert_eq!(
        first.attributes,
        vec![
            TurnAttribute::RequestedTransport(17),
            TurnAttribute::Lifetime(600),
        ]
    );
    assert_eq!(transcript.take_reply(&ID, &challenge()), Ok(()));
    assert_eq!(transcript.realm(), b"local.test");
    assert_eq!(transcript.nonce(), b"nonce-1");
    let signed = transcript.next_request().expect("request");
    assert!(signed.signed);
    assert_eq!(
        signed.attributes[0],
        TurnAttribute::Username(b"alice".to_vec())
    );
    assert_eq!(transcript.outcome(), None);
    assert_eq!(
        transcript.take_reply(&ID, &allocated(v4(5000), 10_000)),
        Ok(())
    );
    assert_eq!(
        transcript.next_request().expect("request").method,
        TurnMethod::CreatePermission
    );
    let permitted = reply(TurnClass::Success, TurnMethod::CreatePermission, vec![]);
    assert_eq!(transcript.take_reply(&ID, &permitted), Ok(()));
    let bind = transcript.next_request().expect("request");
    assert_eq!(bind.method, TurnMethod::ChannelBind);
    assert_eq!(
        bind.attributes[3..],
        [
            TurnAttribute::ChannelNumber(0x4000),
            TurnAttribute::XorPeerAddress(v4(4000)),
        ]
    );
    let bound = reply(TurnClass::Success, TurnMethod::ChannelBind, vec![]);
    assert_eq!(transcript.take_reply(&ID, &bound), Ok(()));
    assert_eq!(transcript.step(), TurnStep::Established);
    assert_eq!(transcript.outcome(), Some((v4(5000), 600)));
    assert_eq!(transcript.next_request(), None);
}

#[test]
fn wrong_replies_end_the_transcript() {
    let mut fresh = transcript();
    assert_eq!(
        fresh.take_reply(&ID, &allocated(v4(5000), 600)),
        Err(TurnError::NotChallenged)
    );
    let bare = reply(
        TurnClass::Error,
        TurnMethod::Allocate,
        vec![TurnAttribute::ErrorCode(401)],
    );
    assert_eq!(
        fresh.take_reply(&ID, &bare),
        Err(TurnError::ChallengeOmittedCredentials)
    );
    let challenged = || {
        let mut next = transcript();
        next.take_reply(&ID, &challenge()).expect("challenge");
        next
    };
    assert_eq!(
        challenged().take_reply(&ID, &reply(TurnClass::Success, TurnMethod::Allocate, vec![])),
        Err(TurnError::OmittedRelayAddress)
    );
    assert_eq!(
        challenged().take_reply(&ID, &allocated(v4(0), 600)),
        Err(TurnError::InvalidRelayAddress)
    );
    assert_eq!(
        challenged().take_reply(&ID, &allocated(v4(5000), 0)),
        Err(TurnError::ZeroLifetime)
    );
    let no_lifetime = reply(
        TurnClass::Success,
        TurnMethod::Allocate,
        vec![TurnAttribute::XorRelayedAddress(v4(5000))],
    );
    assert_eq!(
        challenged().take_reply(&ID, &no_lifetime),
        Err(TurnError::OmittedLifetime)
    );
    assert!(challenged()
        .take_reply(&[4; 12], &allocated(v4(5000), 600))
        .is_err());
    assert!(validate_relayed(v4(5000), v4(3478)).is_ok());
    assert!(validate_relayed(SocketAddress::new(IpAddress::V6(1), 5), v4(3478)).is_err());
}

#[test]
fn success_needs_class_method_and_transaction() {
    let message = reply(TurnClass::Success, TurnMethod::Refresh, vec![]);
    assert_eq!(require_success(&message, TurnMethod::Refresh, &ID), Ok(()));
    assert!(require_success(&message, TurnMethod::Allocate, &ID).is_err());
    assert!(require_success(&message, TurnMethod::Refresh, &[9; 12]).is_err());
    let failed = reply(TurnClass::Error, TurnMethod::Refresh, vec![]);
    assert!(require_success(&failed, TurnMethod::Refresh, &ID).is_err());
}

#[test]
fn refresh_must_be_honored() {
    let honored = |lifetime: u32| {
        reply(
            TurnClass::Success,
            TurnMethod::Refresh,
            vec![TurnAttribute::Lifetime(lifetime)],
        )
    };
    assert_eq!(judge_refresh(&honored(600), &ID, 600), Ok(600));
    assert_eq!(judge_refresh(&honored(0), &ID, 0), Ok(0));
    assert_eq!(
        judge_refresh(&honored(0), &ID, 600),
        Err(TurnError::RefreshZeroLifetime)
    );
    assert_eq!(
        judge_refresh(&honored(5), &ID, 0),
        Err(TurnError::RefreshNotHonored)
    );
    let silent = reply(TurnClass::Success, TurnMethod::Refresh, vec![]);
    assert_eq!(
        judge_refresh(&silent, &ID, 600),
        Err(TurnError::RefreshOmittedLifetime)
    );
    assert_eq!(refresh_delay_ns(600 * SECOND, 300), 240 * SECOND);
    assert_eq!(refresh_delay_ns(100 * SECOND, 300), 50 * SECOND);
    assert_eq!(refresh_delay_ns(0, 300), 50_000_000);
    assert_eq!(attempt_timeout(0, SECOND), Some(200_000_000));
    assert_eq!(attempt_timeout(0, 5), Some(5));
    assert_eq!(attempt_timeout(4, SECOND), None);
}

#[test]
fn revoked_route_never_lives_again() {
    let mut state = LiveState::establishing(0, 10 * SECOND);
    assert_eq!(state.ensure_live(9 * SECOND), Ok(()));
    assert_eq!(state.ensure_live(10 * SECOND), Err(TurnError::NotLive));
    assert_eq!(state.establish(0, 600), Ok(()));
    assert_eq!(state.generation, 1);
    state.renew(1, SECOND, 600);
    assert_eq!(state.generation, 2);
    assert_eq!(state.expiry_ns, 601 * SECOND);
    state.renew(1, 2 * SECOND, 600);
    assert_eq!(state.generation, 2);
    assert!(state.mark_revoked());
    assert!(!state.mark_revoked());
    state.renew(2, SECOND, 600);
    assert_eq!(state.ensure_live(SECOND), Err(TurnError::NotLive));
    assert_eq!(state.establish(0, 600), Err(TurnError::Revoked));
}

#[test]
fn only_the_bound_peer_is_sent_to() {
    let state = LiveState::establishing(0, SECOND);
    let send = |now_ns: u64, destination: SocketAddress, len: usize, segmented: bool| {
        check_transmit(
            &state,
            now_ns,
            wire(),
            v4(4000),
            destination,
            len,
            segmented,
            false,
        )
    };
    assert_eq!(send(0, v4(4000), 1_496, false), Ok(()));
    assert_eq!(
        send(0, v4(4000), 1_497, false),
        Err(TurnError::BindingMismatch)
    );
    assert_eq!(send(0, v4(4001), 10, false), Err(TurnError::BindingMismatch));
    assert_eq!(send(0, v4(4000), 10, true), Err(TurnError::BindingMismatch));
    assert_eq!(send(SECOND, v4(4000), 10, false), Err(TurnError::NotLive));
    assert_eq!(check_written(10, 10), Ok(()));
    assert_eq!(check_written(10, 9), Err(TurnError::ShortDatagram));
}

#[test]
fn inbound_datagrams_are_sorted() {
    let judge = |source: SocketAddress, len: usize, datagram: TurnDatagram| {
        judge_datagram(wire(), v4(3478), 0x4000, source, len, datagram)
    };
    let channel = |channel: u16| TurnDatagram::Channel { channel, len: 10 };
    assert_eq!(judge(v4(3478), 14, channel(0x4000)), TurnInbound::Payload);
    assert_eq!(judge(v4(3478), 14, channel(0x4001)), TurnInbound::Ignore);
    assert_eq!(judge(v4(3479), 14, channel(0x4000)), TurnInbound::Ignore);
    assert_eq!(
        judge(v4(3478), 20, TurnDatagram::Message(TurnClass::Success)),
        TurnInbound::Response
    );
    assert_eq!(
        judge(v4(3478), 20, TurnDatagram::Message(TurnClass::Indication)),
        TurnInbound::Ignore
    );
    assert_eq!(
        judge(v4(3478), 20, TurnDatagram::Malformed),
        TurnInbound::Ignore
    );
    assert_eq!(judge(v4(3478), 0, channel(0x4000)), TurnInbound::Ignore);
}

#[test]
fn full_queue_drops_new_payloads() {
    let mut queue = TurnQueue::new();
    for index in 0..=MAX_QUEUE {
        queue.push(vec![index as u8]);
    }
    assert_eq!(queue.len(), MAX_QUEUE);
    assert_eq!(queue.pop(10), Ok(Some(vec![0])));
    assert_eq!(queue.pop(0), Err(TurnError::ReceiveBufferTooSmall));
    let mut empty = TurnQueue::new();
    assert_eq!(empty.pop(10), Ok(None));
}

#[test]
fn transaction_numbers_are_fresh_and_nonzero() {
    let first = transaction_id().expect("entropy");
    assert_ne!(first, [0; 12]);
    assert_ne!(first, transaction_id().expect("entropy"));
    assert_eq!(id_from_bytes(&[0; 12]), Err(TurnError::RandomnessZero));
    assert_eq!(id_from_bytes(&[1; 12]), Ok([1; 12]));
    assert_eq!(
        signed_attributes(b"u", b"r", b"n", vec![]),
        vec![
            TurnAttribute::Username(b"u".to_vec()),
            TurnAttribute::Realm(b"r".to_vec()),
            TurnAttribute::Nonce(b"n".to_vec()),
        ]
    );
}
