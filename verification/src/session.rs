//! Authenticated datagram sessions: handshake, epochs and media flow.
//!
//! The endpoint decides what to send and what to accept; the caller encodes
//! records, moves them over its socket and reports back what was sent.

use crate::bytes::{be_digits, bytes_equal, push_u32, push_u64};
use crate::congestion::{
    AdaptiveCongestionConfig, AdaptiveCongestionController, CodecReconfigureSignal,
    CongestionDecision, ControllerView, ReconfigureReason,
};
use crate::control::{ControlKind, OutgoingControl, ReceivedControl};
use crate::counter::{clamped, least};
use crate::error::{ProtocolError, TransportError};
use crate::fragment::{
    fragment_error, fragment_frame, fragments, packet_views, FragmentSpec,
    DEFAULT_MAX_DATAGRAM_BYTES, MAX_DATAGRAM_MTU, MIN_DATAGRAM_MTU,
};
use crate::media::{key_of, FrameKey, MediaPacket, MediaWire, PacketView};
use crate::reassembly::{
    decoded_view, IngestOutcome, OutcomeView, Reassembler, ReassemblerView, ReassemblyConfig,
};
use crate::replay::{is_replay, remembered, DeliveredFrames};
use crate::tag_laws::law_tag_tells_secrets_apart;
use vstd::prelude::*;

verus! {

/// Largest datagram that a socket is opened with by default.
pub const DEFAULT_MAX_SOCKET_DATAGRAM: usize = DEFAULT_MAX_DATAGRAM_BYTES;

/// Role in a remote desktop transport session.
#[derive(Debug, Clone, Copy, PartialEq, Eq, Structural)]
pub enum SessionRole {
    Host,
    Client,
}

/// Handshake lifecycle state for an authenticated session.
#[derive(Debug, Clone, Copy, PartialEq, Eq)]
pub enum HandshakeState {
    /// Initial unauthenticated state.
    Initial,
    /// The client's greeting is on its way, its answer is awaited.
    HelloSent { client_nonce: [u8; 16] },
    /// The host answered a greeting and awaits the proof of identity.
    HelloAckSent {
        server_nonce: [u8; 16],
        client_nonce: [u8; 16],
        device_fingerprint: [u8; 32],
    },
    /// Handshake completed, session is active.
    Active,
    /// Handshake failed.
    Failed,
}

/// The state that a handshake step needs.
#[derive(Debug, Clone, Copy, PartialEq, Eq, Structural)]
pub enum ExpectedState {
    HelloSent,
    HelloAckSent,
}

/// Socket transport error.
#[derive(Debug, Clone, Copy, PartialEq, Eq)]
pub enum SocketError {
    DatagramSize(usize),
    ReceiveBuffer { required: usize, actual: usize },
    ShortWrite { expected: usize, actual: usize },
    Protocol(ProtocolError),
    Transport(TransportError),
    InvalidHandshakeRole,
    InvalidHandshakeState { expected: ExpectedState, actual: HandshakeState },
    UnexpectedControlKind(ControlKind),
    DeviceNotPinned([u8; 32]),
    AuthenticationFailed,
    SessionNotActive,
    SessionIdMismatch { expected: u64, actual: u64 },
    EpochMismatch { expected: u32, actual: u32 },
    NonMonotonicEpoch { attempted: u32, current: u32 },
}

/// The sizes that a datagram socket accepts.
#[derive(Debug, Clone, Copy, PartialEq, Eq, Structural)]
pub struct DatagramLimit {
    pub max_datagram: usize,
}

/// Accepts a socket's datagram limit between 64 bytes and the UDP maximum.
pub fn validate_max(max_datagram: usize) -> (result: Result<DatagramLimit, SocketError>)
    ensures
        result == (if 64 <= max_datagram <= 65_507 {
            Ok::<DatagramLimit, SocketError>(DatagramLimit { max_datagram })
        } else {
            Err::<DatagramLimit, SocketError>(SocketError::DatagramSize(max_datagram))
        }),
{
    if max_datagram < 64 || max_datagram > 65_507 {
        return Err(SocketError::DatagramSize(max_datagram));
    }
    Ok(DatagramLimit { max_datagram })
}

impl DatagramLimit {
    /// Accepts a nonempty datagram within the limit for sending.
    pub fn check_send(self, len: usize) -> (result: Result<(), SocketError>)
        ensures
            result == (if 0 < len <= self.max_datagram {
                Ok::<(), SocketError>(())
            } else {
                Err::<(), SocketError>(SocketError::DatagramSize(len))
            }),
    {
        if len == 0 || len > self.max_datagram {
            return Err(SocketError::DatagramSize(len));
        }
        Ok(())
    }

    /// Accepts a write only if the whole datagram left.
    pub fn check_written(self, expected: usize, actual: usize) -> (result: Result<
        usize,
        SocketError,
    >)
        ensures
            result == (if actual == expected {
                Ok::<usize, SocketError>(actual)
            } else {
                Err::<usize, SocketError>(SocketError::ShortWrite { expected, actual })
            }),
    {
        if actual != expected {
            return Err(SocketError::ShortWrite { expected, actual });
        }
        Ok(actual)
    }

    /// Accepts a receive buffer that holds any datagram within the limit.
    pub fn check_buffer(self, len: usize) -> (result: Result<(), SocketError>)
        ensures
            result == (if len >= self.max_datagram {
                Ok::<(), SocketError>(())
            } else {
                Err::<(), SocketError>(
                    SocketError::ReceiveBuffer { required: self.max_datagram, actual: len },
                )
            }),
    {
        if len < self.max_datagram {
            return Err(SocketError::ReceiveBuffer { required: self.max_datagram, actual: len });
        }
        Ok(())
    }

    /// Accepts a nonempty received datagram within the limit.
    pub fn check_read(self, read: usize) -> (result: Result<usize, SocketError>)
        ensures
            result == (if 0 < read <= self.max_datagram {
                Ok::<usize, SocketError>(read)
            } else {
                Err::<usize, SocketError>(SocketError::DatagramSize(read))
            }),
    {
        if read == 0 || read > self.max_datagram {
            return Err(SocketError::DatagramSize(read));
        }
        Ok(read)
    }
}

// ---------------------------------------------------------------------------
// Authentication tag
// ---------------------------------------------------------------------------
/// A byte turned left by three bits.
pub open spec fn turned(value: u8) -> u8 {
    (value << 3) | (value >> 5)
}

/// One mixing step: the byte, its left neighbour, its right neighbour and the
/// round number.
pub open spec fn stirred(byte: u8, left: u8, right: u8, round: u8) -> u8 {
    turned(((byte + (left ^ round)) % 256) as u8) ^ right
}

/// The tag state before mixing.
pub open spec fn tag_seed(
    secret: Seq<u8>,
    session_id: u64,
    epoch: u32,
    client_nonce: Seq<u8>,
    server_nonce: Seq<u8>,
) -> Seq<u8> {
    Seq::new(
        32,
        |i: int|
            {
                let masked = secret[i] ^ 0x5c;
                if i < 8 {
                    masked ^ be_digits(session_id as int, 8)[i]
                } else if i < 16 {
                    masked ^ be_digits(epoch as int, 4)[(i - 8) % 4]
                } else {
                    masked ^ (client_nonce[i - 16] ^ server_nonce[i - 16])
                }
            },
    )
}

/// The state after mixing the first `count` bytes of a round in place.
pub open spec fn mixed(state: Seq<u8>, round: u8, count: int) -> Seq<u8>
    decreases count,
{
    if count <= 0 {
        state
    } else {
        let earlier = mixed(state, round, count - 1);
        let at = count - 1;
        earlier.update(
            at,
            stirred(earlier[at], earlier[(at + 31) % 32], earlier[(at + 1) % 32], round),
        )
    }
}

/// The state after the first `count` rounds.
pub open spec fn mixed_rounds(state: Seq<u8>, count: int) -> Seq<u8>
    decreases count,
{
    if count <= 0 {
        state
    } else {
        mixed(mixed_rounds(state, count - 1), (count - 1) as u8, 32)
    }
}

/// The authentication proof tag over session parameters.
pub open spec fn auth_tag(
    secret: Seq<u8>,
    session_id: u64,
    epoch: u32,
    client_nonce: Seq<u8>,
    server_nonce: Seq<u8>,
) -> Seq<u8> {
    mixed_rounds(tag_seed(secret, session_id, epoch, client_nonce, server_nonce), 4)
}

/// Computes an authentication proof tag over session parameters.
pub fn compute_auth_tag(
    secret: &[u8; 32],
    session_id: u64,
    epoch: u32,
    client_nonce: &[u8; 16],
    server_nonce: &[u8; 16],
) -> (tag: [u8; 32])
    ensures
        tag@ == auth_tag(secret@, session_id, epoch, client_nonce@, server_nonce@),
{
    let mut session_bytes: Vec<u8> = Vec::new();
    push_u64(&mut session_bytes, session_id);
    let mut epoch_bytes: Vec<u8> = Vec::new();
    push_u32(&mut epoch_bytes, epoch);
    proof {
        crate::bytes::lemma_bounds();
        crate::bytes::law_be_round_trip(session_id as int, 8);
        crate::bytes::law_be_round_trip(epoch as int, 4);
    }
    let ghost seed = tag_seed(secret@, session_id, epoch, client_nonce@, server_nonce@);
    let mut state: [u8; 32] = [0u8;32];
    let mut index: usize = 0;
    while index < 32
        invariant
            index <= 32,
            session_bytes@ == be_digits(session_id as int, 8),
            epoch_bytes@ == be_digits(epoch as int, 4),
            session_bytes@.len() == 8,
            epoch_bytes@.len() == 4,
            seed == tag_seed(secret@, session_id, epoch, client_nonce@, server_nonce@),
            forall|i: int| 0 <= i < index ==> state@[i] == seed[i],
        decreases 32 - index,
    {
        let masked: u8 = secret[index] ^ 0x5c;
        let byte: u8 = if index < 8 {
            masked ^ session_bytes[index]
        } else if index < 16 {
            masked ^ epoch_bytes[(index - 8) % 4]
        } else {
            masked ^ (client_nonce[index - 16] ^ server_nonce[index - 16])
        };
        state[index] = byte;
        index += 1;
    }
    assert(state@ =~= seed);
    let mut round: u8 = 0;
    while round < 4
        invariant
            round <= 4,
            state@ == mixed_rounds(seed, round as int),
        decreases 4 - round,
    {
        let ghost before = state@;
        let mut at: usize = 0;
        while at < 32
            invariant
                at <= 32,
                before.len() == 32,
                state@ == mixed(before, round, at as int),
            decreases 32 - at,
        {
            let left: u8 = state[(at + 31) % 32];
            let right: u8 = state[(at + 1) % 32];
            let sum: u8 = state[at].wrapping_add(left ^ round);
            let byte: u8 = ((sum << 3) | (sum >> 5)) ^ right;
            let ghost current = state@;
            state[at] = byte;
            proof {
                assert(state@ =~= current.update(at as int, byte));
                assert(sum == (current[at as int] + (left ^ round)) % 256);
            }
            at += 1;
        }
        round += 1;
    }
    state
}

// ---------------------------------------------------------------------------
// Handshake messages
// ---------------------------------------------------------------------------
/// The client's greeting.
#[derive(Debug, Clone, Copy, PartialEq, Eq)]
pub struct HelloMessage {
    pub client_version: u16,
    pub client_nonce: [u8; 16],
    pub device_fingerprint: [u8; 32],
    pub capabilities_mask: u32,
    pub proposed_mtu: u16,
}

/// The host's answer to a greeting.
#[derive(Debug, Clone, Copy, PartialEq, Eq)]
pub struct HelloAckMessage {
    pub server_version: u16,
    pub server_nonce: [u8; 16],
    pub session_id: u64,
    pub authorization_epoch: u32,
    pub negotiated_mtu: u16,
}

/// The client's proof of identity.
#[derive(Debug, Clone, Copy, PartialEq, Eq)]
pub struct AuthenticateMessage {
    pub session_id: u64,
    pub authorization_epoch: u32,
    pub auth_tag: [u8; 32],
    pub client_nonce: [u8; 16],
}

/// The host's final word.
#[derive(Debug, Clone, Copy, PartialEq, Eq)]
pub struct HandshakeCompletedMessage {
    pub session_id: u64,
    pub authorization_epoch: u32,
    pub server_nonce: [u8; 16],
}

/// Configuration for an authenticated datagram transport session.
#[derive(Debug, Clone, Copy, PartialEq, Eq, Structural)]
pub struct AuthenticatedSessionConfig {
    pub role: SessionRole,
    pub path_mtu: usize,
    pub reassembly: ReassemblyConfig,
    pub congestion: AdaptiveCongestionConfig,
}

impl Default for AuthenticatedSessionConfig {
    fn default() -> (config: Self)
        ensures
            config.role == SessionRole::Client,
            config.path_mtu == DEFAULT_MAX_DATAGRAM_BYTES,
            call_ensures(ReassemblyConfig::default, (), config.reassembly),
            call_ensures(AdaptiveCongestionConfig::default, (), config.congestion),
    {
        AuthenticatedSessionConfig {
            role: SessionRole::Client,
            path_mtu: DEFAULT_MAX_DATAGRAM_BYTES,
            reassembly: ReassemblyConfig::default(),
            congestion: AdaptiveCongestionConfig::default(),
        }
    }
}

/// The endpoint as mathematics sees it.
#[verifier::ext_equal]
pub struct EndpointView {
    pub role: SessionRole,
    pub path_mtu: usize,
    pub wire_version: u16,
    pub state: HandshakeState,
    /// The state to enter once the prepared greeting or answer is sent.
    pub pending: Option<HandshakeState>,
    pub session_id: u64,
    pub authorization_epoch: u32,
    pub codec_epoch: u32,
    pub reassembler: ReassemblerView,
    /// The frames that were delivered already.
    pub delivered: Set<FrameKey>,
    pub congestion: ControllerView,
}

/// The view of what a media datagram gave.
pub open spec fn media_outcome_view(result: Result<IngestOutcome, SocketError>) -> Result<
    OutcomeView,
    SocketError,
> {
    match result {
        Ok(outcome) => Ok(outcome@),
        Err(error) => Err(error),
    }
}

/// An MTU moved into the internet-safe range.
pub open spec fn safe_mtu(mtu: int) -> usize {
    clamped(mtu, 1_200, 1_450) as usize
}

/// Some device in the list has this fingerprint.
pub open spec fn is_pinned(pinned: Seq<[u8; 32]>, fingerprint: [u8; 32]) -> bool {
    exists|i: int| 0 <= i < pinned.len() && (#[trigger] pinned[i])@ == fingerprint@
}

/// What a step that needs a record of kind `kind` makes of a received one.
pub open spec fn body_of<T>(
    packet: Result<ReceivedControl<T>, ProtocolError>,
    kind: ControlKind,
) -> Result<T, SocketError> {
    match packet {
        Err(error) => Err(SocketError::Protocol(error)),
        Ok(packet) => if packet.kind != kind {
            Err(SocketError::UnexpectedControlKind(packet.kind))
        } else {
            match packet.body {
                Err(error) => Err(SocketError::Protocol(error)),
                Ok(body) => Ok(body),
            }
        },
    }
}

fn take_body<T>(packet: Result<ReceivedControl<T>, ProtocolError>, kind: ControlKind) -> (result:
    Result<T, SocketError>)
    ensures
        result == body_of(packet, kind),
{
    match packet {
        Err(error) => Err(SocketError::Protocol(error)),
        Ok(packet) => {
            if packet.kind != kind {
                return Err(SocketError::UnexpectedControlKind(packet.kind));
            }
            match packet.body {
                Err(error) => Err(SocketError::Protocol(error)),
                Ok(body) => Ok(body),
            }
        },
    }
}

impl EndpointView {
    /// What the fragments of a frame sent now have in common.
    pub open spec fn media_spec(
        self,
        kind: u8,
        flags: u16,
        frame_id: u64,
        dependency_frame_id: Option<u64>,
    ) -> FragmentSpec {
        FragmentSpec {
            kind,
            flags,
            stream_id: 1,
            codec_epoch: self.codec_epoch,
            frame_id,
            dependency_frame_id,
        }
    }

    /// The client's greeting.
    pub open spec fn hello(
        self,
        device_fingerprint: [u8; 32],
        client_nonce: [u8; 16],
    ) -> HelloMessage {
        HelloMessage {
            client_version: self.wire_version,
            client_nonce,
            device_fingerprint,
            capabilities_mask: 1,
            proposed_mtu: self.path_mtu as u16,
        }
    }

    /// The client with a prepared greeting.
    pub open spec fn initiating(self, client_nonce: [u8; 16]) -> EndpointView {
        EndpointView { pending: Some(HandshakeState::HelloSent { client_nonce }), ..self }
    }

    /// The client once its prepared greeting is sent.
    pub open spec fn after_hello(self) -> EndpointView {
        match self.pending {
            Some(HandshakeState::HelloSent { client_nonce }) => self.in_state(
                HandshakeState::HelloSent { client_nonce },
            ),
            _ => self,
        }
    }

    /// The host once its prepared answer is sent.
    pub open spec fn after_hello_ack(self) -> EndpointView {
        match self.pending {
            Some(HandshakeState::HelloAckSent { server_nonce, client_nonce, device_fingerprint }) =>
                self.in_state(
                    HandshakeState::HelloAckSent { server_nonce, client_nonce, device_fingerprint },
                ),
            _ => self,
        }
    }

    /// The MTU that a host agrees on with a client.
    pub open spec fn agreed_mtu(self, hello: HelloMessage) -> usize {
        safe_mtu(least(hello.proposed_mtu as int, self.path_mtu as int))
    }

    /// The host after accepting a greeting, before its answer is sent.
    pub open spec fn greeted(
        self,
        hello: HelloMessage,
        server_nonce: [u8; 16],
        session_id: u64,
        epoch: u32,
    ) -> EndpointView {
        EndpointView {
            pending: Some(
                HandshakeState::HelloAckSent {
                    server_nonce,
                    client_nonce: hello.client_nonce,
                    device_fingerprint: hello.device_fingerprint,
                },
            ),
            path_mtu: self.agreed_mtu(hello),
            session_id,
            authorization_epoch: epoch,
            ..self
        }
    }

    /// The client after accepting the host's answer.
    pub open spec fn acknowledged(self, ack: HelloAckMessage) -> EndpointView {
        EndpointView {
            path_mtu: safe_mtu(ack.negotiated_mtu as int),
            session_id: ack.session_id,
            authorization_epoch: ack.authorization_epoch,
            ..self
        }
    }

    /// The endpoint in another handshake state, with nothing prepared.
    pub open spec fn in_state(self, state: HandshakeState) -> EndpointView {
        EndpointView { state, pending: None, ..self }
    }

    /// The endpoint after a media datagram, and what that gave. A datagram of a
    /// frame that was delivered already changes nothing.
    pub open spec fn taking_media(
        self,
        datagram_len: usize,
        packet: Result<PacketView, ProtocolError>,
        now_ns: u64,
    ) -> (EndpointView, Result<OutcomeView, SocketError>) {
        match packet {
            Err(error) => (self, Err(SocketError::Protocol(error))),
            Ok(view) => {
                let key = key_of(view.header);
                if is_replay(self.delivered, key) {
                    (
                        self,
                        Err(SocketError::Transport(TransportError::ReplayDetected(key.frame_id))),
                    )
                } else {
                    let step = self.reassembler.ingesting(datagram_len, Ok(view), now_ns);
                    match step.1 {
                        Err(error) => (
                            EndpointView { reassembler: step.0, ..self },
                            Err(SocketError::Transport(error)),
                        ),
                        Ok(outcome) => (
                            EndpointView {
                                reassembler: step.0,
                                delivered: if outcome is Complete {
                                    remembered(self.delivered, key)
                                } else {
                                    self.delivered
                                },
                                ..self
                            },
                            Ok(outcome),
                        ),
                    }
                }
            },
        }
    }

    /// Why a session identity or epoch is refused.
    pub open spec fn identity_fault(self, session_id: u64, epoch: u32) -> Option<SocketError> {
        if session_id != self.session_id {
            Some(
                SocketError::SessionIdMismatch { expected: self.session_id, actual: session_id },
            )
        } else if epoch != self.authorization_epoch {
            Some(
                SocketError::EpochMismatch { expected: self.authorization_epoch, actual: epoch },
            )
        } else {
            None
        }
    }

    /// The host after a greeting, and its answer.
    pub open spec fn greeting(
        self,
        packet: Result<ReceivedControl<HelloMessage>, ProtocolError>,
        pinned: Seq<[u8; 32]>,
        server_nonce: [u8; 16],
        session_id: u64,
        epoch: u32,
    ) -> (EndpointView, Result<OutgoingControl<HelloAckMessage>, SocketError>) {
        if self.role != SessionRole::Host {
            (self, Err(SocketError::InvalidHandshakeRole))
        } else {
            match body_of(packet, ControlKind::Hello) {
                Err(error) => (self, Err(error)),
                Ok(hello) => if !is_pinned(pinned, hello.device_fingerprint) {
                    (
                        self.in_state(HandshakeState::Failed),
                        Err(SocketError::DeviceNotPinned(hello.device_fingerprint)),
                    )
                } else {
                    (
                        self.greeted(hello, server_nonce, session_id, epoch),
                        Ok(
                            OutgoingControl {
                                kind: ControlKind::HelloAck,
                                session_id,
                                body: HelloAckMessage {
                                    server_version: self.wire_version,
                                    server_nonce,
                                    session_id,
                                    authorization_epoch: epoch,
                                    negotiated_mtu: self.agreed_mtu(hello) as u16,
                                },
                            },
                        ),
                    )
                },
            }
        }
    }

    /// The host after a client's proof, and its answer.
    pub open spec fn authenticating(
        self,
        packet: Result<ReceivedControl<AuthenticateMessage>, ProtocolError>,
        secret: Seq<u8>,
    ) -> (EndpointView, Result<OutgoingControl<HandshakeCompletedMessage>, SocketError>) {
        match self.state {
            HandshakeState::HelloAckSent { server_nonce, client_nonce, .. } => match body_of(
                packet,
                ControlKind::Authenticate,
            ) {
                Err(error) => (self, Err(error)),
                Ok(auth) => match self.identity_fault(auth.session_id, auth.authorization_epoch) {
                    Some(error) => (self, Err(error)),
                    None => if auth.auth_tag@ == auth_tag(
                        secret,
                        self.session_id,
                        self.authorization_epoch,
                        client_nonce@,
                        server_nonce@,
                    ) {
                        (
                            self.in_state(HandshakeState::Active),
                            Ok(
                                OutgoingControl {
                                    kind: ControlKind::HandshakeCompleted,
                                    session_id: self.session_id,
                                    body: HandshakeCompletedMessage {
                                        session_id: self.session_id,
                                        authorization_epoch: self.authorization_epoch,
                                        server_nonce,
                                    },
                                },
                            ),
                        )
                    } else {
                        (
                            self.in_state(HandshakeState::Failed),
                            Err(SocketError::AuthenticationFailed),
                        )
                    },
                },
            },
            other => (
                self,
                Err(
                    SocketError::InvalidHandshakeState {
                        expected: ExpectedState::HelloAckSent,
                        actual: other,
                    },
                ),
            ),
        }
    }

    /// The client after the host's final word, and what that gave.
    pub open spec fn completing(
        self,
        packet: Result<ReceivedControl<HandshakeCompletedMessage>, ProtocolError>,
    ) -> (EndpointView, Result<(), SocketError>) {
        match body_of(packet, ControlKind::HandshakeCompleted) {
            Err(error) => (self, Err(error)),
            Ok(completed) => match self.identity_fault(
                completed.session_id,
                completed.authorization_epoch,
            ) {
                Some(error) => (self, Err(error)),
                None => (self.in_state(HandshakeState::Active), Ok(())),
            },
        }
    }
}

/// The record by which a client proves that it knows the secret.
pub open spec fn is_proof(
    record: OutgoingControl<AuthenticateMessage>,
    ack: HelloAckMessage,
    client_nonce: [u8; 16],
    secret: Seq<u8>,
) -> bool {
    &&& record.kind == ControlKind::Authenticate
    &&& record.session_id == ack.session_id
    &&& record.body.session_id == ack.session_id
    &&& record.body.authorization_epoch == ack.authorization_epoch
    &&& record.body.client_nonce == client_nonce
    &&& record.body.auth_tag@ == auth_tag(
        secret,
        ack.session_id,
        ack.authorization_epoch,
        client_nonce@,
        ack.server_nonce@,
    )
}

/// A record as the peer receives it unchanged.
pub open spec fn delivered<T>(sent: OutgoingControl<T>) -> Result<
    ReceivedControl<T>,
    ProtocolError,
> {
    Ok(ReceivedControl { kind: sent.kind, session_id: sent.session_id, body: Ok(sent.body) })
}

/// Authenticated datagram transport endpoint, without its socket.
#[derive(Debug)]
pub struct AuthenticatedDatagramEndpoint {
    config: AuthenticatedSessionConfig,
    wire: MediaWire,
    wire_version: u16,
    handshake_state: HandshakeState,
    pending: Option<HandshakeState>,
    session_id: u64,
    authorization_epoch: u32,
    codec_epoch: u32,
    reassembler: Reassembler,
    delivered: DeliveredFrames,
    congestion: AdaptiveCongestionController,
}

impl View for AuthenticatedDatagramEndpoint {
    type V = EndpointView;

    closed spec fn view(&self) -> EndpointView {
        EndpointView {
            role: self.config.role,
            path_mtu: self.config.path_mtu,
            wire_version: self.wire_version,
            state: self.handshake_state,
            pending: self.pending,
            session_id: self.session_id,
            authorization_epoch: self.authorization_epoch,
            codec_epoch: self.codec_epoch,
            reassembler: self.reassembler@,
            delivered: self.delivered@,
            congestion: self.congestion@,
        }
    }
}

impl AuthenticatedDatagramEndpoint {
    /// Reassembler and congestion controller are well-formed.
    pub closed spec fn wf(&self) -> bool {
        &&& self.reassembler.wf()
        &&& self.congestion@.is_valid()
        &&& self.reassembler@.wire == self.wire
    }

    /// An endpoint before its handshake.
    pub fn new(
        config: AuthenticatedSessionConfig,
        wire: MediaWire,
        wire_version: u16,
    ) -> (result: Result<Self, SocketError>)
        ensures
            !config.reassembly.is_valid(wire) ==> result is Err && result->Err_0
                == SocketError::Transport(TransportError::InvalidReassemblyConfig),
            config.reassembly.is_valid(wire) && !config.congestion.is_valid() ==> result is Err
                && result->Err_0 == SocketError::Transport(
                TransportError::CongestionConfigInvalid,
            ),
            config.reassembly.is_valid(wire) && config.congestion.is_valid() ==> result is Ok,
            result is Ok ==> {
                let view = result->Ok_0@;
                &&& result->Ok_0.wf()
                &&& view.role == config.role
                &&& view.path_mtu == config.path_mtu
                &&& view.wire_version == wire_version
                &&& view.state == HandshakeState::Initial
                &&& view.pending is None
                &&& view.delivered == Set::<FrameKey>::empty()
                &&& view.session_id == 0
                &&& view.authorization_epoch == 1
                &&& view.codec_epoch == 1
                &&& view.reassembler == (ReassemblerView {
                    config: config.reassembly,
                    wire,
                    frames: Map::empty(),
                    stats: crate::reassembly::no_events(),
                    active_codec_epoch: 1,
                })
                &&& view.congestion == ControllerView::fresh(config.congestion)
            },
    {
        let reassembler = match Reassembler::new(config.reassembly, wire) {
            Ok(reassembler) => reassembler,
            Err(error) => return Err(SocketError::Transport(error)),
        };
        let congestion = match AdaptiveCongestionController::new(config.congestion) {
            Ok(congestion) => congestion,
            Err(error) => return Err(SocketError::Transport(error)),
        };
        Ok(
            AuthenticatedDatagramEndpoint {
                config,
                wire,
                wire_version,
                handshake_state: HandshakeState::Initial,
                pending: None,
                session_id: 0,
                authorization_epoch: 1,
                codec_epoch: 1,
                reassembler,
                delivered: DeliveredFrames::new(),
                congestion,
            },
        )
    }

    /// This endpoint's role.
    pub fn role(&self) -> (role: SessionRole)
        ensures
            role == self@.role,
    {
        self.config.role
    }

    /// The agreed session identity.
    pub fn session_id(&self) -> (id: u64)
        ensures
            id == self@.session_id,
    {
        self.session_id
    }

    /// The current authorization epoch.
    pub fn authorization_epoch(&self) -> (epoch: u32)
        ensures
            epoch == self@.authorization_epoch,
    {
        self.authorization_epoch
    }

    /// The current codec epoch.
    pub fn codec_epoch(&self) -> (epoch: u32)
        ensures
            epoch == self@.codec_epoch,
    {
        self.codec_epoch
    }

    /// The handshake state.
    pub fn handshake_state(&self) -> (state: HandshakeState)
        ensures
            state == self@.state,
    {
        self.handshake_state
    }

    /// The path MTU in use.
    pub fn path_mtu(&self) -> (mtu: usize)
        ensures
            mtu == self@.path_mtu,
    {
        self.config.path_mtu
    }

    /// The congestion controller.
    pub fn congestion(&self) -> (congestion: &AdaptiveCongestionController)
        ensures
            congestion@ == self@.congestion,
    {
        &self.congestion
    }

    /// The reassembler.
    pub fn reassembler(&self) -> (reassembler: &Reassembler)
        requires
            self.wf(),
        ensures
            reassembler@ == self@.reassembler,
            reassembler.wf(),
    {
        &self.reassembler
    }

    /// Client: the greeting that opens a handshake. Report it with
    /// [`Self::hello_sent`] once it is on its way.
    pub fn client_initiate_handshake(
        &mut self,
        device_fingerprint: [u8; 32],
        client_nonce: [u8; 16],
    ) -> (result: Result<OutgoingControl<HelloMessage>, SocketError>)
        requires
            old(self).wf(),
        ensures
            final(self).wf(),
            final(self)@ == (if old(self)@.role == SessionRole::Client {
                old(self)@.initiating(client_nonce)
            } else {
                old(self)@
            }),
            result == (if old(self)@.role == SessionRole::Client {
                Ok::<OutgoingControl<HelloMessage>, SocketError>(
                    OutgoingControl {
                        kind: ControlKind::Hello,
                        session_id: 0,
                        body: old(self)@.hello(device_fingerprint, client_nonce),
                    },
                )
            } else {
                Err::<OutgoingControl<HelloMessage>, SocketError>(
                    SocketError::InvalidHandshakeRole,
                )
            }),
    {
        if self.config.role != SessionRole::Client {
            return Err(SocketError::InvalidHandshakeRole);
        }
        self.pending = Some(HandshakeState::HelloSent { client_nonce });
        Ok(
            OutgoingControl {
                kind: ControlKind::Hello,
                session_id: 0,
                body: HelloMessage {
                    client_version: self.wire_version,
                    client_nonce,
                    device_fingerprint,
                    capabilities_mask: 1,
                    proposed_mtu: self.config.path_mtu as u16,
                },
            },
        )
    }

    /// Client: the prepared greeting was sent.
    pub fn hello_sent(&mut self)
        requires
            old(self).wf(),
        ensures
            final(self).wf(),
            final(self)@ == old(self)@.after_hello(),
    {
        match self.pending {
            Some(HandshakeState::HelloSent { client_nonce }) => {
                self.enter(HandshakeState::HelloSent { client_nonce });
            },
            _ => {},
        }
    }

    fn enter(&mut self, state: HandshakeState)
        requires
            old(self).wf(),
        ensures
            final(self).wf(),
            final(self)@ == old(self)@.in_state(state),
    {
        self.handshake_state = state;
        self.pending = None;
    }

    /// Host: judges a greeting and prepares the answer. Report it with
    /// [`Self::hello_ack_sent`] once it is on its way.
    pub fn host_handle_hello(
        &mut self,
        packet: Result<ReceivedControl<HelloMessage>, ProtocolError>,
        pinned_devices: &[[u8; 32]],
        server_nonce: [u8; 16],
        assigned_session_id: u64,
        initial_epoch: u32,
    ) -> (result: Result<OutgoingControl<HelloAckMessage>, SocketError>)
        requires
            old(self).wf(),
        ensures
            final(self).wf(),
            (final(self)@, result) == old(self)@.greeting(
                packet,
                pinned_devices@,
                server_nonce,
                assigned_session_id,
                initial_epoch,
            ),
    {
        if self.config.role != SessionRole::Host {
            return Err(SocketError::InvalidHandshakeRole);
        }
        let hello: HelloMessage = match take_body(packet, ControlKind::Hello) {
            Ok(hello) => hello,
            Err(error) => return Err(error),
        };
        let mut pinned: bool = false;
        let mut index: usize = 0;
        while index < pinned_devices.len()
            invariant
                index <= pinned_devices@.len(),
                pinned == exists|i: int|
                    0 <= i < index && (#[trigger] pinned_devices@[i])@
                        == hello.device_fingerprint@,
            decreases pinned_devices@.len() - index,
        {
            if bytes_equal(&pinned_devices[index], &hello.device_fingerprint) {
                assert(pinned_devices@[index as int]@ == hello.device_fingerprint@);
                pinned = true;
            }
            index += 1;
        }
        if !pinned {
            self.enter(HandshakeState::Failed);
            return Err(SocketError::DeviceNotPinned(hello.device_fingerprint));
        }
        let proposed: usize = hello.proposed_mtu as usize;
        let smaller: usize = if proposed < self.config.path_mtu {
            proposed
        } else {
            self.config.path_mtu
        };
        let negotiated_mtu: usize = clamp_mtu(smaller);
        self.pending = Some(
            HandshakeState::HelloAckSent {
                server_nonce,
                client_nonce: hello.client_nonce,
                device_fingerprint: hello.device_fingerprint,
            },
        );
        self.config.path_mtu = negotiated_mtu;
        self.session_id = assigned_session_id;
        self.authorization_epoch = initial_epoch;
        Ok(
            OutgoingControl {
                kind: ControlKind::HelloAck,
                session_id: assigned_session_id,
                body: HelloAckMessage {
                    server_version: self.wire_version,
                    server_nonce,
                    session_id: assigned_session_id,
                    authorization_epoch: initial_epoch,
                    negotiated_mtu: negotiated_mtu as u16,
                },
            },
        )
    }

    /// Host: the prepared answer was sent.
    pub fn hello_ack_sent(&mut self)
        requires
            old(self).wf(),
        ensures
            final(self).wf(),
            final(self)@ == old(self)@.after_hello_ack(),
    {
        match self.pending {
            Some(HandshakeState::HelloAckSent { server_nonce, client_nonce, device_fingerprint }) =>
                {
                self.enter(
                    HandshakeState::HelloAckSent { server_nonce, client_nonce, device_fingerprint },
                );
            },
            _ => {},
        }
    }

    /// Client: takes over the host's answer and proves knowledge of the shared
    /// secret.
    pub fn client_handle_hello_ack(
        &mut self,
        packet: Result<ReceivedControl<HelloAckMessage>, ProtocolError>,
        shared_secret: &[u8; 32],
    ) -> (result: Result<OutgoingControl<AuthenticateMessage>, SocketError>)
        requires
            old(self).wf(),
        ensures
            final(self).wf(),
            match old(self)@.state {
                HandshakeState::HelloSent { client_nonce } => match body_of(
                    packet,
                    ControlKind::HelloAck,
                ) {
                    Err(error) => result is Err && result->Err_0 == error && final(self)@ == old(
                        self,
                    )@,
                    Ok(ack) => {
                        &&& final(self)@ == old(self)@.acknowledged(ack)
                        &&& result is Ok
                        &&& is_proof(result->Ok_0, ack, client_nonce, shared_secret@)
                    },
                },
                other => result is Err && result->Err_0 == (SocketError::InvalidHandshakeState {
                    expected: ExpectedState::HelloSent,
                    actual: other,
                }) && final(self)@ == old(self)@,
            },
    {
        let client_nonce: [u8; 16] = match self.handshake_state {
            HandshakeState::HelloSent { client_nonce } => client_nonce,
            other => return Err(
                SocketError::InvalidHandshakeState {
                    expected: ExpectedState::HelloSent,
                    actual: other,
                },
            ),
        };
        let ack: HelloAckMessage = match take_body(packet, ControlKind::HelloAck) {
            Ok(ack) => ack,
            Err(error) => return Err(error),
        };
        self.config.path_mtu = clamp_mtu(ack.negotiated_mtu as usize);
        self.session_id = ack.session_id;
        self.authorization_epoch = ack.authorization_epoch;
        let auth_tag: [u8; 32] = compute_auth_tag(
            shared_secret,
            ack.session_id,
            ack.authorization_epoch,
            &client_nonce,
            &ack.server_nonce,
        );
        Ok(
            OutgoingControl {
                kind: ControlKind::Authenticate,
                session_id: ack.session_id,
                body: AuthenticateMessage {
                    session_id: ack.session_id,
                    authorization_epoch: ack.authorization_epoch,
                    auth_tag,
                    client_nonce,
                },
            },
        )
    }

    /// Host: checks the client's proof and completes the handshake.
    pub fn host_handle_authenticate(
        &mut self,
        packet: Result<ReceivedControl<AuthenticateMessage>, ProtocolError>,
        shared_secret: &[u8; 32],
    ) -> (result: Result<OutgoingControl<HandshakeCompletedMessage>, SocketError>)
        requires
            old(self).wf(),
        ensures
            final(self).wf(),
            (final(self)@, result) == old(self)@.authenticating(packet, shared_secret@),
    {
        let (server_nonce, client_nonce): ([u8; 16], [u8; 16]) = match self.handshake_state {
            HandshakeState::HelloAckSent { server_nonce, client_nonce, .. } => (
                server_nonce,
                client_nonce,
            ),
            other => return Err(
                SocketError::InvalidHandshakeState {
                    expected: ExpectedState::HelloAckSent,
                    actual: other,
                },
            ),
        };
        let auth: AuthenticateMessage = match take_body(packet, ControlKind::Authenticate) {
            Ok(auth) => auth,
            Err(error) => return Err(error),
        };
        match self.check_identity(auth.session_id, auth.authorization_epoch) {
            Some(error) => return Err(error),
            None => {},
        }
        let expected_tag: [u8; 32] = compute_auth_tag(
            shared_secret,
            self.session_id,
            self.authorization_epoch,
            &client_nonce,
            &server_nonce,
        );
        if !bytes_equal(&expected_tag, &auth.auth_tag) {
            self.enter(HandshakeState::Failed);
            return Err(SocketError::AuthenticationFailed);
        }
        self.enter(HandshakeState::Active);
        Ok(
            OutgoingControl {
                kind: ControlKind::HandshakeCompleted,
                session_id: self.session_id,
                body: HandshakeCompletedMessage {
                    session_id: self.session_id,
                    authorization_epoch: self.authorization_epoch,
                    server_nonce,
                },
            },
        )
    }

    fn check_identity(&self, session_id: u64, epoch: u32) -> (fault: Option<SocketError>)
        ensures
            fault == self@.identity_fault(session_id, epoch),
    {
        if session_id != self.session_id {
            return Some(
                SocketError::SessionIdMismatch { expected: self.session_id, actual: session_id },
            );
        }
        if epoch != self.authorization_epoch {
            return Some(
                SocketError::EpochMismatch { expected: self.authorization_epoch, actual: epoch },
            );
        }
        None
    }

    /// Client: accepts the host's final word and activates the session.
    pub fn client_handle_handshake_completed(
        &mut self,
        packet: Result<ReceivedControl<HandshakeCompletedMessage>, ProtocolError>,
    ) -> (result: Result<(), SocketError>)
        requires
            old(self).wf(),
        ensures
            final(self).wf(),
            (final(self)@, result) == old(self)@.completing(packet),
    {
        let completed: HandshakeCompletedMessage = match take_body(
            packet,
            ControlKind::HandshakeCompleted,
        ) {
            Ok(completed) => completed,
            Err(error) => return Err(error),
        };
        match self.check_identity(completed.session_id, completed.authorization_epoch) {
            Some(error) => return Err(error),
            None => {},
        }
        self.enter(HandshakeState::Active);
        Ok(())
    }

    /// What the fragments of a media frame have in common.
    pub fn fragment_spec(
        &self,
        kind: u8,
        flags: u16,
        frame_id: u64,
        dependency_frame_id: Option<u64>,
    ) -> (spec: FragmentSpec)
        ensures
            spec == self@.media_spec(kind, flags, frame_id, dependency_frame_id),
    {
        FragmentSpec {
            kind,
            flags,
            stream_id: 1,
            codec_epoch: self.codec_epoch,
            frame_id,
            dependency_frame_id,
        }
    }

    /// Splits a media frame into packets that fit the path. The caller sends
    /// every packet. `encodable` is the packet codec's verdict on packets of
    /// this frame.
    pub fn send_media_frame(
        &self,
        frame: &[u8],
        kind: u8,
        flags: u16,
        frame_id: u64,
        dependency_frame_id: Option<u64>,
        encodable: Result<(), ProtocolError>,
    ) -> (result: Result<Vec<MediaPacket>, SocketError>)
        requires
            self.wf(),
        ensures
            self@.state != HandshakeState::Active ==> result is Err && result->Err_0
                == SocketError::SessionNotActive,
            self@.state == HandshakeState::Active && !(1_200 <= self@.path_mtu <= 1_450)
                ==> result is Err && result->Err_0 == SocketError::Transport(
                TransportError::DatagramMtu(self@.path_mtu),
            ),
            self@.state == HandshakeState::Active && 1_200 <= self@.path_mtu <= 1_450
                ==> match fragment_error(
                self@.reassembler.wire,
                frame@.len() as int,
                self@.path_mtu,
            ) {
                Some(error) => result is Err && result->Err_0 == SocketError::Transport(error),
                None => match encodable {
                    Err(error) => result is Err && result->Err_0 == SocketError::Transport(
                        TransportError::Protocol(error),
                    ),
                    Ok(()) => result is Ok && packet_views(result->Ok_0@) == fragments(
                        self@.media_spec(kind, flags, frame_id, dependency_frame_id),
                        self@.reassembler.wire,
                        frame@,
                        self@.path_mtu - self@.reassembler.wire.header_len,
                    ),
                },
            },
    {
        if !matches!(self.handshake_state, HandshakeState::Active) {
            return Err(SocketError::SessionNotActive);
        }
        let spec: FragmentSpec = self.fragment_spec(kind, flags, frame_id, dependency_frame_id);
        match fragment_frame(self.wire, spec, frame, self.config.path_mtu, encodable) {
            Ok(packets) => Ok(packets),
            Err(error) => Err(SocketError::Transport(error)),
        }
    }

    /// Reassembles one received media datagram with anti-replay protection: a
    /// datagram of a frame that was delivered already is refused and changes
    /// nothing. Further fragments of an unfinished frame are no replay.
    pub fn receive_media_datagram(
        &mut self,
        datagram_len: usize,
        packet: Result<MediaPacket, ProtocolError>,
        now_ns: u64,
    ) -> (result: Result<IngestOutcome, SocketError>)
        requires
            old(self).wf(),
        ensures
            final(self).wf(),
            (final(self)@, media_outcome_view(result)) == old(self)@.taking_media(
                datagram_len,
                decoded_view(packet),
                now_ns,
            ),
    {
        let packet: MediaPacket = match packet {
            Err(error) => return Err(SocketError::Protocol(error)),
            Ok(packet) => packet,
        };
        let key: FrameKey = FrameKey::from_header(packet.header());
        if self.delivered.is_replay(key) {
            return Err(SocketError::Transport(TransportError::ReplayDetected(key.frame_id)));
        }
        match self.reassembler.ingest(datagram_len, Ok(packet), now_ns) {
            Ok(outcome) => {
                if matches!(outcome, IngestOutcome::Complete(_)) {
                    self.delivered.remember(key);
                }
                Ok(outcome)
            },
            Err(error) => Err(SocketError::Transport(error)),
        }
    }

    /// Whether a control record of this session identity may be taken.
    pub fn receive_control(&self, packet: Result<u64, ProtocolError>) -> (result: Result<
        (),
        SocketError,
    >)
        ensures
            result == (match packet {
                Err(error) => Err::<(), SocketError>(SocketError::Protocol(error)),
                Ok(session_id) => if self@.state == HandshakeState::Active && session_id
                    != self@.session_id {
                    Err::<(), SocketError>(
                        SocketError::SessionIdMismatch {
                            expected: self@.session_id,
                            actual: session_id,
                        },
                    )
                } else {
                    Ok::<(), SocketError>(())
                },
            }),
    {
        match packet {
            Err(error) => Err(SocketError::Protocol(error)),
            Ok(session_id) => {
                if matches!(self.handshake_state, HandshakeState::Active) && session_id
                    != self.session_id {
                    return Err(
                        SocketError::SessionIdMismatch {
                            expected: self.session_id,
                            actual: session_id,
                        },
                    );
                }
                Ok(())
            },
        }
    }

    /// Updates adaptive congestion controller on network feedback.
    pub fn on_network_feedback(
        &mut self,
        rtt_ns: u64,
        loss_million: u32,
        jitter_ns: u64,
        now_ns: u64,
    ) -> (decision: CongestionDecision)
        requires
            old(self).wf(),
        ensures
            final(self).wf(),
            ({
                let step = old(self)@.congestion.sampled(rtt_ns, loss_million, jitter_ns, now_ns);
                final(self)@ == (EndpointView { congestion: step.0, ..old(self)@ }) && decision
                    == step.1
            }),
    {
        self.congestion.on_sample(rtt_ns, loss_million, jitter_ns, now_ns)
    }

    /// Records a detected frame loss event, throttling bitrate and requesting keyframe recovery.
    pub fn on_loss_event(&mut self, now_ns: u64) -> (decision: CongestionDecision)
        requires
            old(self).wf(),
        ensures
            final(self).wf(),
            final(self)@ == (EndpointView {
                congestion: old(self)@.congestion.recovering(now_ns),
                ..old(self)@
            }),
            decision == final(self)@.congestion.decision(true, true),
    {
        self.congestion.on_loss_event(now_ns)
    }

    /// Bumps codec epoch and generates a reconfigure signal.
    pub fn bump_codec_epoch(&mut self, new_epoch: u32, now_ns: u64) -> (result: Result<
        CodecReconfigureSignal,
        SocketError,
    >)
        requires
            old(self).wf(),
        ensures
            final(self).wf(),
            new_epoch <= old(self)@.codec_epoch ==> final(self)@ == old(self)@ && result is Err
                && result->Err_0 == (SocketError::NonMonotonicEpoch {
                attempted: new_epoch,
                current: old(self)@.codec_epoch,
            }),
            new_epoch > old(self)@.codec_epoch ==> {
                &&& final(self)@ == (EndpointView {
                    codec_epoch: new_epoch,
                    congestion: old(self)@.congestion.restarted(now_ns),
                    ..old(self)@
                })
                &&& result is Ok
                &&& result->Ok_0 == (CodecReconfigureSignal {
                    stream_id: 1,
                    codec_epoch: new_epoch,
                    target_bitrate_bps: old(self)@.congestion.bitrate_bps,
                    max_bitrate_bps: old(self)@.congestion.ceiling_bps(),
                    target_fps: old(self)@.congestion.fps,
                    force_keyframe: true,
                    reason: ReconfigureReason::EpochBump,
                })
            },
    {
        if new_epoch <= self.codec_epoch {
            return Err(
                SocketError::NonMonotonicEpoch { attempted: new_epoch, current: self.codec_epoch },
            );
        }
        self.codec_epoch = new_epoch;
        let decision = self.congestion.on_epoch_bump(new_epoch, now_ns);
        Ok(
            CodecReconfigureSignal {
                stream_id: 1,
                codec_epoch: new_epoch,
                target_bitrate_bps: decision.target_bitrate_bps,
                max_bitrate_bps: decision.max_bitrate_bps,
                target_fps: decision.target_fps,
                force_keyframe: true,
                reason: ReconfigureReason::EpochBump,
            },
        )
    }

    /// Monotonically advances authorization epoch.
    pub fn bump_authorization_epoch(&mut self, new_epoch: u32) -> (result: Result<
        u32,
        SocketError,
    >)
        requires
            old(self).wf(),
        ensures
            final(self).wf(),
            new_epoch <= old(self)@.authorization_epoch ==> final(self)@ == old(self)@
                && result is Err && result->Err_0 == (SocketError::NonMonotonicEpoch {
                attempted: new_epoch,
                current: old(self)@.authorization_epoch,
            }),
            new_epoch > old(self)@.authorization_epoch ==> result is Ok && result->Ok_0
                == new_epoch && final(self)@ == (EndpointView {
                authorization_epoch: new_epoch,
                ..old(self)@
            }),
    {
        if new_epoch <= self.authorization_epoch {
            return Err(
                SocketError::NonMonotonicEpoch {
                    attempted: new_epoch,
                    current: self.authorization_epoch,
                },
            );
        }
        self.authorization_epoch = new_epoch;
        Ok(new_epoch)
    }
}

fn clamp_mtu(mtu: usize) -> (result: usize)
    ensures
        result == safe_mtu(mtu as int),
{
    if mtu < MIN_DATAGRAM_MTU {
        MIN_DATAGRAM_MTU
    } else if mtu > MAX_DATAGRAM_MTU {
        MAX_DATAGRAM_MTU
    } else {
        mtu
    }
}

/// A client and a host that exchange their records unchanged and know one
/// secret both end active, with the same session, epoch and MTU. A client with
/// any other secret is refused, and the host ends failed.
pub proof fn law_handshake_agrees(
    client: EndpointView,
    host: EndpointView,
    pinned: Seq<[u8; 32]>,
    fingerprint: [u8; 32],
    client_nonce: [u8; 16],
    server_nonce: [u8; 16],
    session_id: u64,
    epoch: u32,
    secret: Seq<u8>,
    host_secret: Seq<u8>,
    proof_record: OutgoingControl<AuthenticateMessage>,
)
    requires
        host.role == SessionRole::Host,
        is_pinned(pinned, fingerprint),
        secret.len() == 32,
        host_secret.len() == 32,
        is_proof(
            proof_record,
            HelloAckMessage {
                server_version: host.wire_version,
                server_nonce,
                session_id,
                authorization_epoch: epoch,
                negotiated_mtu: host.agreed_mtu(client.hello(fingerprint, client_nonce)) as u16,
            },
            client_nonce,
            secret,
        ),
    ensures
        ({
            let hello = OutgoingControl {
                kind: ControlKind::Hello,
                session_id: 0,
                body: client.hello(fingerprint, client_nonce),
            };
            let waiting = client.initiating(client_nonce).after_hello();
            let greeted = host.greeting(
                delivered(hello),
                pinned,
                server_nonce,
                session_id,
                epoch,
            );
            let ack = greeted.1->Ok_0;
            let answered = greeted.0.after_hello_ack();
            let joined = waiting.acknowledged(ack.body);
            let judged = answered.authenticating(delivered(proof_record), host_secret);
            &&& waiting.state == (HandshakeState::HelloSent { client_nonce })
            &&& greeted.1 is Ok
            &&& is_proof(proof_record, ack.body, client_nonce, secret)
            &&& joined.path_mtu == answered.path_mtu
            &&& 1_200 <= joined.path_mtu <= 1_450
            &&& if secret == host_secret {
                let done = joined.completing(delivered(judged.1->Ok_0));
                &&& judged.1 is Ok
                &&& done.1 == Ok::<(), SocketError>(())
                &&& judged.0.state == HandshakeState::Active
                &&& done.0.state == HandshakeState::Active
                &&& done.0.session_id == session_id && judged.0.session_id == session_id
                &&& done.0.authorization_epoch == epoch && judged.0.authorization_epoch == epoch
                &&& done.0.path_mtu == judged.0.path_mtu
            } else {
                judged == (
                    answered.in_state(HandshakeState::Failed),
                    Err::<OutgoingControl<HandshakeCompletedMessage>, SocketError>(
                        SocketError::AuthenticationFailed,
                    ),
                )
            }
        }),
{
    law_tag_tells_secrets_apart(
        secret,
        host_secret,
        session_id,
        epoch,
        client_nonce@,
        server_nonce@,
    );
}

} // verus!
