use latencydesk::address::{IpAddress, SocketAddress};
use latencydesk::control::StreamKind;
use latencydesk::error::{ProtocolError, TransportError};
use latencydesk::identity::{DisplayNameError, IdentityError};
use latencydesk::probe::{IceProbeError, TranscriptFault};
use latencydesk::product::{
    CandidateExchangeViolation, IceGenerationViolation, ProductProtocolViolation,
    ProductSessionError,
};
use latencydesk::quic::{
    ConnectionLoss, MediaSendOutcome, QuicTransportError, ReadFault, WriteFault,
};
use latencydesk::route::RouteTransitionViolation;
use latencydesk::stun::StunDiscoveryError;
use latencydesk::turn::TurnError;

#[test]
fn transport_errors_say_what_failed() {
    let cases = vec![
        (QuicTransportError::Io, "QUIC endpoint I/O failed: x"),
        (QuicTransportError::Connect, "QUIC connection start failed: x"),
        (
            QuicTransportError::Connection(ConnectionLoss::Reset),
            "QUIC connection failed: x",
        ),
        (
            QuicTransportError::Read(ReadFault::FinishedEarly),
            "QUIC stream read failed: x",
        ),
        (
            QuicTransportError::Write(WriteFault::Other),
            "QUIC stream write failed: x",
        ),
        (
            QuicTransportError::ExpiryMismatch {
                expected: 70,
                actual: 9,
            },
            "media expiry mismatch: expected 70, record carries 9",
        ),
        (
            QuicTransportError::Protocol(ProtocolError::InvalidSessionStamp),
            "invalid QUIC application record: x",
        ),
        (
            QuicTransportError::EndpointClosed,
            "QUIC endpoint closed before accept",
        ),
        (
            QuicTransportError::MissingPeerIdentity,
            "QUIC peer did not authenticate",
        ),
        (
            QuicTransportError::UnexpectedPeerIdentity,
            "QUIC peer identity was not rustls certificates",
        ),
        (
            QuicTransportError::DuplicateInboundLane(StreamKind::Input),
            "duplicate inbound Input application lane",
        ),
        (
            QuicTransportError::StreamKindChanged {
                expected: StreamKind::Control,
                actual: StreamKind::Input,
            },
            "stream kind changed from Control to Input",
        ),
    ];
    for (error, text) in cases {
        assert_eq!(error.describe("x"), text);
    }
}

#[test]
fn session_errors_say_what_failed() {
    let cases = vec![
        (
            ProductSessionError::Quic(QuicTransportError::Io),
            "QUIC session operation failed: x",
        ),
        (
            ProductSessionError::Protocol(ProtocolError::InvalidSessionStamp),
            "session record is invalid: x",
        ),
        (
            ProductSessionError::Transport(TransportError::FragmentConflict),
            "media transport failed: x",
        ),
        (
            ProductSessionError::PeerProtocol(ProductProtocolViolation::HandshakeNonceMismatch),
            "peer violated the product session protocol: x",
        ),
        (
            ProductSessionError::CandidateExchange(CandidateExchangeViolation::GenerationExhausted),
            "local candidate exchange is invalid: x",
        ),
        (
            ProductSessionError::IceGeneration(IceGenerationViolation::Poisoned),
            "local ICE generation is invalid: x",
        ),
        (
            ProductSessionError::RouteTransition(RouteTransitionViolation::InactiveRoute),
            "local route transition is invalid: x",
        ),
        (
            ProductSessionError::RouteEpochTransition {
                expected_current: 1,
                actual_current: 2,
                requested_next: 30,
            },
            "route epoch transition expected 1, found 2, requested 30",
        ),
        (
            ProductSessionError::DatagramsUnsupported,
            "QUIC DATAGRAM support was not negotiated",
        ),
        (
            ProductSessionError::DatagramBudgetTooSmall {
                path_max_datagram_bytes: 10,
                outer_header_bytes: 48,
                minimum_inner_datagram_bytes: 65,
            },
            "QUIC DATAGRAM limit 10 cannot reserve 48 bytes and fit the minimum 65-byte media packet",
        ),
        (
            ProductSessionError::InvalidMediaMaxAge,
            "media max age must be nonzero and fit in u64 nanoseconds",
        ),
        (
            ProductSessionError::MediaDeadlineOverflow,
            "sender-local media deadline overflowed",
        ),
        (
            ProductSessionError::MediaSendAborted {
                outcome: MediaSendOutcome::DroppedExpired,
                fragments_sent: 1,
                fragments_total: 4,
            },
            "media access unit aborted after 1/4 fragments: DroppedExpired",
        ),
        (
            ProductSessionError::HandshakeTimedOut { timeout_ms: 5_000 },
            "product handshake timed out after x",
        ),
    ];
    for (error, text) in cases {
        assert_eq!(error.describe("x"), text);
    }
}

#[test]
fn discovery_errors_say_what_failed() {
    assert_eq!(
        StunDiscoveryError::InvalidPolicy.describe(""),
        "invalid bounded STUN discovery policy"
    );
    assert_eq!(
        StunDiscoveryError::Timeout {
            requests_sent: 7,
            ignored_datagrams: 32,
        }
        .describe(""),
        "STUN discovery timed out after 7 request(s) and 32 ignored datagram(s)"
    );
    assert_eq!(
        StunDiscoveryError::Io.describe("denied"),
        "STUN socket I/O failed: denied"
    );
}

#[test]
fn relay_errors_say_what_failed() {
    assert_eq!(
        TurnError::NotChallenged.describe(""),
        "TURN Allocate did not return 401"
    );
    assert_eq!(
        TurnError::NotLive.describe(""),
        "TURN route expired or revoked"
    );
    assert_eq!(TurnError::Revoked.describe(""), "TURN route revoked");
    assert_eq!(TurnError::Io.describe("denied"), "denied");
}

#[test]
fn probe_errors_say_what_failed() {
    let address = SocketAddress::new(IpAddress::V4(0x7f00_0001), 9);
    assert_eq!(
        IceProbeError::InvalidRemote {
            expected: address,
            actual: address,
        }
        .describe("127.0.0.1:9", "127.0.0.1:10", ""),
        "probe remote 127.0.0.1:10 is not nominated 127.0.0.1:9"
    );
    assert_eq!(
        IceProbeError::Transcript(TranscriptFault::ZeroNonce).describe("", "", ""),
        "probe transcript failed: nonces must be nonzero"
    );
    assert_eq!(
        IceProbeError::Quic(QuicTransportError::Io).describe("", "", "x"),
        "probe QUIC failed: x"
    );
    assert_eq!(
        IceProbeError::CleanupTimeout.describe("", "", ""),
        "probe endpoint cleanup timed out"
    );
    assert_eq!(TranscriptFault::WrongLane.describe(), "wrong lane");
}

#[test]
fn identity_errors_say_what_failed() {
    assert_eq!(
        DisplayNameError::TooLong { actual: 65 }.describe(),
        "display name has 65 characters; maximum is 64"
    );
    assert_eq!(
        IdentityError::InvalidDisplayName(DisplayNameError::Empty).describe("", ""),
        "invalid display name: display name is empty"
    );
}
