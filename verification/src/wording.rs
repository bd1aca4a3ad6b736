//! What the errors say. Where an error wraps another one, `detail` is that
//! error in words.

use crate::control::StreamKind;
use crate::probe::{IceProbeError, TranscriptFault};
use crate::product::ProductSessionError;
use crate::quic::{MediaSendOutcome, QuicTransportError};
use crate::stun::StunDiscoveryError;
use crate::text::{decimal, push_decimal, push_text};
use crate::turn::TurnError;
use vstd::prelude::*;
use vstd::string::*;

verus! {

fn joined(prefix: &str, detail: &str) -> (text: String)
    ensures
        text@ == prefix@ + detail@,
{
    let mut text: String = String::from_str(prefix);
    push_text(&mut text, detail);
    text
}

/// The name of a lane.
pub open spec fn lane_name(kind: StreamKind) -> Seq<char> {
    match kind {
        StreamKind::Control => "Control"@,
        StreamKind::Input => "Input"@,
    }
}

fn push_lane(text: &mut String, kind: StreamKind)
    ensures
        final(text)@ == old(text)@ + lane_name(kind),
{
    match kind {
        StreamKind::Control => push_text(text, "Control"),
        StreamKind::Input => push_text(text, "Input"),
    }
}

/// The name of what became of a media datagram.
pub open spec fn outcome_name(outcome: MediaSendOutcome) -> Seq<char> {
    match outcome {
        MediaSendOutcome::Sent => "Sent"@,
        MediaSendOutcome::DroppedExpired => "DroppedExpired"@,
        MediaSendOutcome::DroppedTooLarge => "DroppedTooLarge"@,
        MediaSendOutcome::Unsupported => "Unsupported"@,
    }
}

fn push_outcome(text: &mut String, outcome: MediaSendOutcome)
    ensures
        final(text)@ == old(text)@ + outcome_name(outcome),
{
    match outcome {
        MediaSendOutcome::Sent => push_text(text, "Sent"),
        MediaSendOutcome::DroppedExpired => push_text(text, "DroppedExpired"),
        MediaSendOutcome::DroppedTooLarge => push_text(text, "DroppedTooLarge"),
        MediaSendOutcome::Unsupported => push_text(text, "Unsupported"),
    }
}

// ---------------------------------------------------------------------------
// QUIC
// ---------------------------------------------------------------------------
/// What a transport error says.
pub open spec fn quic_text(error: QuicTransportError, detail: Seq<char>) -> Seq<char> {
    match error {
        QuicTransportError::Io => "QUIC endpoint I/O failed: "@ + detail,
        QuicTransportError::Connect => "QUIC connection start failed: "@ + detail,
        QuicTransportError::Connection(_) => "QUIC connection failed: "@ + detail,
        QuicTransportError::Read(_) => "QUIC stream read failed: "@ + detail,
        QuicTransportError::Write(_) => "QUIC stream write failed: "@ + detail,
        QuicTransportError::ExpiryMismatch { expected, actual } => {
            "media expiry mismatch: expected "@ + decimal(expected as nat) + ", record carries "@
                + decimal(actual as nat)
        },
        QuicTransportError::Protocol(_) => "invalid QUIC application record: "@ + detail,
        QuicTransportError::EndpointClosed => "QUIC endpoint closed before accept"@,
        QuicTransportError::MissingPeerIdentity => "QUIC peer did not authenticate"@,
        QuicTransportError::UnexpectedPeerIdentity => {
            "QUIC peer identity was not rustls certificates"@
        },
        QuicTransportError::DuplicateInboundLane(kind) => {
            "duplicate inbound "@ + lane_name(kind) + " application lane"@
        },
        QuicTransportError::StreamKindChanged { expected, actual } => {
            "stream kind changed from "@ + lane_name(expected) + " to "@ + lane_name(actual)
        },
    }
}

impl QuicTransportError {
    /// The error in words.
    pub fn describe(&self, detail: &str) -> (text: String)
        ensures
            text@ == quic_text(*self, detail@),
    {
        match *self {
            QuicTransportError::Io => joined("QUIC endpoint I/O failed: ", detail),
            QuicTransportError::Connect => joined("QUIC connection start failed: ", detail),
            QuicTransportError::Connection(_) => joined("QUIC connection failed: ", detail),
            QuicTransportError::Read(_) => joined("QUIC stream read failed: ", detail),
            QuicTransportError::Write(_) => joined("QUIC stream write failed: ", detail),
            QuicTransportError::ExpiryMismatch { expected, actual } => {
                let mut text: String = String::from_str("media expiry mismatch: expected ");
                push_decimal(&mut text, expected);
                push_text(&mut text, ", record carries ");
                push_decimal(&mut text, actual);
                text
            },
            QuicTransportError::Protocol(_) => joined("invalid QUIC application record: ", detail),
            QuicTransportError::EndpointClosed => String::from_str(
                "QUIC endpoint closed before accept",
            ),
            QuicTransportError::MissingPeerIdentity => String::from_str(
                "QUIC peer did not authenticate",
            ),
            QuicTransportError::UnexpectedPeerIdentity => String::from_str(
                "QUIC peer identity was not rustls certificates",
            ),
            QuicTransportError::DuplicateInboundLane(kind) => {
                let mut text: String = String::from_str("duplicate inbound ");
                push_lane(&mut text, kind);
                push_text(&mut text, " application lane");
                text
            },
            QuicTransportError::StreamKindChanged { expected, actual } => {
                let mut text: String = String::from_str("stream kind changed from ");
                push_lane(&mut text, expected);
                push_text(&mut text, " to ");
                push_lane(&mut text, actual);
                text
            },
        }
    }
}

// ---------------------------------------------------------------------------
// Product sessions
// ---------------------------------------------------------------------------
/// What a session error says. The detail of a handshake timeout is the time.
pub open spec fn product_text(error: ProductSessionError, detail: Seq<char>) -> Seq<char> {
    match error {
        ProductSessionError::Quic(_) => "QUIC session operation failed: "@ + detail,
        ProductSessionError::Protocol(_) => "session record is invalid: "@ + detail,
        ProductSessionError::Transport(_) => "media transport failed: "@ + detail,
        ProductSessionError::PeerProtocol(_) => {
            "peer violated the product session protocol: "@ + detail
        },
        ProductSessionError::CandidateExchange(_) => {
            "local candidate exchange is invalid: "@ + detail
        },
        ProductSessionError::IceGeneration(_) => "local ICE generation is invalid: "@ + detail,
        ProductSessionError::RouteTransition(_) => "local route transition is invalid: "@ + detail,
        ProductSessionError::RouteEpochTransition {
            expected_current,
            actual_current,
            requested_next,
        } => {
            "route epoch transition expected "@ + decimal(expected_current as nat) + ", found "@
                + decimal(actual_current as nat) + ", requested "@ + decimal(requested_next as nat)
        },
        ProductSessionError::DatagramsUnsupported => "QUIC DATAGRAM support was not negotiated"@,
        ProductSessionError::DatagramBudgetTooSmall {
            path_max_datagram_bytes,
            outer_header_bytes,
            minimum_inner_datagram_bytes,
        } => {
            "QUIC DATAGRAM limit "@ + decimal(path_max_datagram_bytes as nat)
                + " cannot reserve "@ + decimal(outer_header_bytes as nat)
                + " bytes and fit the minimum "@ + decimal(minimum_inner_datagram_bytes as nat)
                + "-byte media packet"@
        },
        ProductSessionError::InvalidMediaMaxAge => {
            "media max age must be nonzero and fit in u64 nanoseconds"@
        },
        ProductSessionError::MediaDeadlineOverflow => "sender-local media deadline overflowed"@,
        ProductSessionError::MediaSendAborted { outcome, fragments_sent, fragments_total } => {
            "media access unit aborted after "@ + decimal(fragments_sent as nat) + "/"@ + decimal(
                fragments_total as nat,
            ) + " fragments: "@ + outcome_name(outcome)
        },
        ProductSessionError::HandshakeTimedOut { .. } => {
            "product handshake timed out after "@ + detail
        },
    }
}

impl ProductSessionError {
    /// The error in words.
    pub fn describe(&self, detail: &str) -> (text: String)
        ensures
            text@ == product_text(*self, detail@),
    {
        match *self {
            ProductSessionError::Quic(_) => joined("QUIC session operation failed: ", detail),
            ProductSessionError::Protocol(_) => joined("session record is invalid: ", detail),
            ProductSessionError::Transport(_) => joined("media transport failed: ", detail),
            ProductSessionError::PeerProtocol(_) => joined(
                "peer violated the product session protocol: ",
                detail,
            ),
            ProductSessionError::CandidateExchange(_) => joined(
                "local candidate exchange is invalid: ",
                detail,
            ),
            ProductSessionError::IceGeneration(_) => joined(
                "local ICE generation is invalid: ",
                detail,
            ),
            ProductSessionError::RouteTransition(_) => joined(
                "local route transition is invalid: ",
                detail,
            ),
            ProductSessionError::RouteEpochTransition {
                expected_current,
                actual_current,
                requested_next,
            } => {
                let mut text: String = String::from_str("route epoch transition expected ");
                push_decimal(&mut text, expected_current);
                push_text(&mut text, ", found ");
                push_decimal(&mut text, actual_current);
                push_text(&mut text, ", requested ");
                push_decimal(&mut text, requested_next);
                text
            },
            ProductSessionError::DatagramsUnsupported => String::from_str(
                "QUIC DATAGRAM support was not negotiated",
            ),
            ProductSessionError::DatagramBudgetTooSmall {
                path_max_datagram_bytes,
                outer_header_bytes,
                minimum_inner_datagram_bytes,
            } => {
                let mut text: String = String::from_str("QUIC DATAGRAM limit ");
                push_decimal(&mut text, path_max_datagram_bytes as u64);
                push_text(&mut text, " cannot reserve ");
                push_decimal(&mut text, outer_header_bytes as u64);
                push_text(&mut text, " bytes and fit the minimum ");
                push_decimal(&mut text, minimum_inner_datagram_bytes as u64);
                push_text(&mut text, "-byte media packet");
                text
            },
            ProductSessionError::InvalidMediaMaxAge => String::from_str(
                "media max age must be nonzero and fit in u64 nanoseconds",
            ),
            ProductSessionError::MediaDeadlineOverflow => String::from_str(
                "sender-local media deadline overflowed",
            ),
            ProductSessionError::MediaSendAborted { outcome, fragments_sent, fragments_total } => {
                let mut text: String = String::from_str("media access unit aborted after ");
                push_decimal(&mut text, fragments_sent as u64);
                push_text(&mut text, "/");
                push_decimal(&mut text, fragments_total as u64);
                push_text(&mut text, " fragments: ");
                push_outcome(&mut text, outcome);
                text
            },
            ProductSessionError::HandshakeTimedOut { .. } => joined(
                "product handshake timed out after ",
                detail,
            ),
        }
    }
}

// ---------------------------------------------------------------------------
// STUN and TURN
// ---------------------------------------------------------------------------
/// What a discovery error says.
pub open spec fn stun_text(error: StunDiscoveryError, detail: Seq<char>) -> Seq<char> {
    match error {
        StunDiscoveryError::InvalidPolicy => "invalid bounded STUN discovery policy"@,
        StunDiscoveryError::InvalidServerAddress => "invalid STUN server address"@,
        StunDiscoveryError::AddressFamilyMismatch => {
            "STUN server and local UDP socket address families differ"@
        },
        StunDiscoveryError::InvalidMappedAddress => {
            "STUN server returned an unusable reflexive address"@
        },
        StunDiscoveryError::Randomness => {
            "operating-system randomness failed for STUN transaction ID"@
        },
        StunDiscoveryError::TooManyUnexpectedDatagrams => {
            "too many unrelated datagrams during STUN discovery"@
        },
        StunDiscoveryError::Timeout { requests_sent, ignored_datagrams } => {
            "STUN discovery timed out after "@ + decimal(requests_sent as nat)
                + " request(s) and "@ + decimal(ignored_datagrams as nat)
                + " ignored datagram(s)"@
        },
        StunDiscoveryError::Io => "STUN socket I/O failed: "@ + detail,
    }
}

impl StunDiscoveryError {
    /// The error in words.
    pub fn describe(&self, detail: &str) -> (text: String)
        ensures
            text@ == stun_text(*self, detail@),
    {
        match *self {
            StunDiscoveryError::InvalidPolicy => String::from_str(
                "invalid bounded STUN discovery policy",
            ),
            StunDiscoveryError::InvalidServerAddress => String::from_str(
                "invalid STUN server address",
            ),
            StunDiscoveryError::AddressFamilyMismatch => String::from_str(
                "STUN server and local UDP socket address families differ",
            ),
            StunDiscoveryError::InvalidMappedAddress => String::from_str(
                "STUN server returned an unusable reflexive address",
            ),
            StunDiscoveryError::Randomness => String::from_str(
                "operating-system randomness failed for STUN transaction ID",
            ),
            StunDiscoveryError::TooManyUnexpectedDatagrams => String::from_str(
                "too many unrelated datagrams during STUN discovery",
            ),
            StunDiscoveryError::Timeout { requests_sent, ignored_datagrams } => {
                let mut text: String = String::from_str("STUN discovery timed out after ");
                push_decimal(&mut text, requests_sent as u64);
                push_text(&mut text, " request(s) and ");
                push_decimal(&mut text, ignored_datagrams as u64);
                push_text(&mut text, " ignored datagram(s)");
                text
            },
            StunDiscoveryError::Io => joined("STUN socket I/O failed: ", detail),
        }
    }
}

/// What a relay error says.
pub open spec fn turn_text(error: TurnError, detail: Seq<char>) -> Seq<char> {
    match error {
        TurnError::InvalidConfiguration => "invalid TURN route configuration"@,
        TurnError::NotLive => "TURN route expired or revoked"@,
        TurnError::Revoked => "TURN route revoked"@,
        TurnError::BindingMismatch => "TURN transmit binding mismatch"@,
        TurnError::ChannelDataBounds => "TURN ChannelData bounds failed"@,
        TurnError::ShortDatagram => "short TURN datagram"@,
        TurnError::ReceiveBufferTooSmall => "receive buffer too small"@,
        TurnError::NotChallenged => "TURN Allocate did not return 401"@,
        TurnError::ChallengeOmittedCredentials => "TURN challenge omitted credentials"@,
        TurnError::OmittedRelayAddress => "TURN Allocate omitted relay address"@,
        TurnError::InvalidRelayAddress => "TURN returned an invalid relay address"@,
        TurnError::OmittedLifetime => "TURN Allocate omitted lifetime"@,
        TurnError::ZeroLifetime => "TURN Allocate returned zero lifetime"@,
        TurnError::TransactionFailed => "TURN transaction returned an error"@,
        TurnError::TranscriptMismatch => "TURN transcript mismatch"@,
        TurnError::RefreshOmittedLifetime => "TURN Refresh omitted lifetime"@,
        TurnError::RefreshNotHonored => "TURN Refresh(0) was not honored"@,
        TurnError::RefreshZeroLifetime => "TURN Refresh returned zero lifetime"@,
        TurnError::InvalidWireMessage => "invalid TURN wire message"@,
        TurnError::Randomness => "TURN transaction randomness failed"@,
        TurnError::RandomnessZero => "TURN transaction randomness returned zero"@,
        TurnError::TransactionTimeout => "TURN transaction timeout"@,
        TurnError::CredentialsUnavailable => "TURN credentials unavailable"@,
        TurnError::Io => detail,
    }
}

impl TurnError {
    /// The error in words.
    pub fn describe(&self, detail: &str) -> (text: String)
        ensures
            text@ == turn_text(*self, detail@),
    {
        let words: &str = match *self {
            TurnError::InvalidConfiguration => "invalid TURN route configuration",
            TurnError::NotLive => "TURN route expired or revoked",
            TurnError::Revoked => "TURN route revoked",
            TurnError::BindingMismatch => "TURN transmit binding mismatch",
            TurnError::ChannelDataBounds => "TURN ChannelData bounds failed",
            TurnError::ShortDatagram => "short TURN datagram",
            TurnError::ReceiveBufferTooSmall => "receive buffer too small",
            TurnError::NotChallenged => "TURN Allocate did not return 401",
            TurnError::ChallengeOmittedCredentials => "TURN challenge omitted credentials",
            TurnError::OmittedRelayAddress => "TURN Allocate omitted relay address",
            TurnError::InvalidRelayAddress => "TURN returned an invalid relay address",
            TurnError::OmittedLifetime => "TURN Allocate omitted lifetime",
            TurnError::ZeroLifetime => "TURN Allocate returned zero lifetime",
            TurnError::TransactionFailed => "TURN transaction returned an error",
            TurnError::TranscriptMismatch => "TURN transcript mismatch",
            TurnError::RefreshOmittedLifetime => "TURN Refresh omitted lifetime",
            TurnError::RefreshNotHonored => "TURN Refresh(0) was not honored",
            TurnError::RefreshZeroLifetime => "TURN Refresh returned zero lifetime",
            TurnError::InvalidWireMessage => "invalid TURN wire message",
            TurnError::Randomness => "TURN transaction randomness failed",
            TurnError::RandomnessZero => "TURN transaction randomness returned zero",
            TurnError::TransactionTimeout => "TURN transaction timeout",
            TurnError::CredentialsUnavailable => "TURN credentials unavailable",
            TurnError::Io => detail,
        };
        String::from_str(words)
    }
}

// ---------------------------------------------------------------------------
// The path probe
// ---------------------------------------------------------------------------
/// What a broken transcript is called.
pub open spec fn transcript_text(fault: TranscriptFault) -> Seq<char> {
    match fault {
        TranscriptFault::ServerRoleIsNotControlled => "server ICE role is not controlled"@,
        TranscriptFault::ClientRoleIsNotControlling => "client ICE role is not controlling"@,
        TranscriptFault::InvalidSocket => "invalid handed-off socket"@,
        TranscriptFault::ZeroNonce => "nonces must be nonzero"@,
        TranscriptFault::RequestBinding => "request binding"@,
        TranscriptFault::NonceBinding => "nonce binding"@,
        TranscriptFault::ResponseBinding => "response binding"@,
        TranscriptFault::CompletionBinding => "completion binding"@,
        TranscriptFault::FinalCompletionBinding => "final completion binding"@,
        TranscriptFault::PayloadExceedsBound => "probe payload exceeds bound"@,
        TranscriptFault::WrongLane => "wrong lane"@,
        TranscriptFault::WrongControlBinding => "wrong control binding"@,
        TranscriptFault::OuterStampBinding => "outer stamp binding"@,
    }
}

impl TranscriptFault {
    /// The fault in words.
    pub fn describe(&self) -> (text: &'static str)
        ensures
            text@ == transcript_text(*self),
    {
        match *self {
            TranscriptFault::ServerRoleIsNotControlled => "server ICE role is not controlled",
            TranscriptFault::ClientRoleIsNotControlling => "client ICE role is not controlling",
            TranscriptFault::InvalidSocket => "invalid handed-off socket",
            TranscriptFault::ZeroNonce => "nonces must be nonzero",
            TranscriptFault::RequestBinding => "request binding",
            TranscriptFault::NonceBinding => "nonce binding",
            TranscriptFault::ResponseBinding => "response binding",
            TranscriptFault::CompletionBinding => "completion binding",
            TranscriptFault::FinalCompletionBinding => "final completion binding",
            TranscriptFault::PayloadExceedsBound => "probe payload exceeds bound",
            TranscriptFault::WrongLane => "wrong lane",
            TranscriptFault::WrongControlBinding => "wrong control binding",
            TranscriptFault::OuterStampBinding => "outer stamp binding",
        }
    }
}

/// What a probe error says. `expected` and `actual` are the two addresses of
/// a wrong remote.
pub open spec fn probe_text(
    error: IceProbeError,
    expected: Seq<char>,
    actual: Seq<char>,
    detail: Seq<char>,
) -> Seq<char> {
    match error {
        IceProbeError::InvalidRemote { .. } => {
            "probe remote "@ + actual + " is not nominated "@ + expected
        },
        IceProbeError::Timeout => "ICE probe timed out"@,
        IceProbeError::Identity(_) => "probe identity failed: "@ + detail,
        IceProbeError::Quic(_) => "probe QUIC failed: "@ + detail,
        IceProbeError::Protocol(_) => "probe protocol failed: "@ + detail,
        IceProbeError::Transcript(fault) => "probe transcript failed: "@ + transcript_text(fault),
        IceProbeError::Entropy => "probe nonce generation failed"@,
        IceProbeError::CleanupTimeout => "probe endpoint cleanup timed out"@,
    }
}

impl IceProbeError {
    /// The error in words.
    pub fn describe(&self, expected: &str, actual: &str, detail: &str) -> (text: String)
        ensures
            text@ == probe_text(*self, expected@, actual@, detail@),
    {
        match *self {
            IceProbeError::InvalidRemote { .. } => {
                let mut text: String = joined("probe remote ", actual);
                push_text(&mut text, " is not nominated ");
                push_text(&mut text, expected);
                text
            },
            IceProbeError::Timeout => String::from_str("ICE probe timed out"),
            IceProbeError::Identity(_) => joined("probe identity failed: ", detail),
            IceProbeError::Quic(_) => joined("probe QUIC failed: ", detail),
            IceProbeError::Protocol(_) => joined("probe protocol failed: ", detail),
            IceProbeError::Transcript(fault) => joined(
                "probe transcript failed: ",
                fault.describe(),
            ),
            IceProbeError::Entropy => String::from_str("probe nonce generation failed"),
            IceProbeError::CleanupTimeout => String::from_str("probe endpoint cleanup timed out"),
        }
    }
}

} // verus!
