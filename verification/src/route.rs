//! One authenticated route of a session: its binding to the TLS transcript,
//! its epoch, and the prepare, prepared, commit exchange that moves it.

use crate::bytes::{
    append_bytes, be_digits, digest_is_zero, digests_equal, is_zero_digest, push_u32, push_u64,
};
use crate::control::{ControlKind, ReceivedControl, SessionStamp};
use crate::digest::{sha256, sha256_digest};
use crate::error::ProtocolError;
use crate::product::{
    check_stamp, is_route_control, is_route_kind, PrivateControl, ProductProtocolViolation,
    ProductSessionError,
};
use crate::quic::QuicTransportError;
use vstd::prelude::*;

verus! {

/// A step of a route transition.
#[derive(Debug, Clone, Copy, PartialEq, Eq, Structural)]
pub enum RouteTransitionStage {
    Prepare,
    Prepared,
    Commit,
    Activated,
    Confirmed,
}

impl RouteTransitionStage {
    /// The kind of the record that carries this step.
    pub open spec fn kind(self) -> ControlKind {
        match self {
            RouteTransitionStage::Prepare => ControlKind::RoutePrepare,
            RouteTransitionStage::Prepared => ControlKind::RoutePrepared,
            RouteTransitionStage::Commit => ControlKind::RouteCommit,
            RouteTransitionStage::Activated => ControlKind::RouteActivated,
            RouteTransitionStage::Confirmed => ControlKind::RouteConfirmed,
        }
    }

    /// The kind of the record that carries this step.
    pub fn control_kind(self) -> (kind: ControlKind)
        ensures
            kind == self.kind(),
    {
        match self {
            RouteTransitionStage::Prepare => ControlKind::RoutePrepare,
            RouteTransitionStage::Prepared => ControlKind::RoutePrepared,
            RouteTransitionStage::Commit => ControlKind::RouteCommit,
            RouteTransitionStage::Activated => ControlKind::RouteActivated,
            RouteTransitionStage::Confirmed => ControlKind::RouteConfirmed,
        }
    }
}

/// Why a route transition is refused.
#[derive(Debug, Clone, Copy, PartialEq, Eq, Structural)]
pub enum RouteTransitionViolation {
    Malformed(ProtocolError),
    ControlRequiresTypedApi,
    UnexpectedKind(ControlKind),
    StageKindMismatch { stage: RouteTransitionStage, kind: ControlKind },
    RouteEpoch { expected: u64, actual: u64 },
    Sequence { expected: u64, actual: u64 },
    InvalidState,
    SessionMismatch,
    PeerIdentityMismatch,
    DuplicateConnection,
    WrongActiveRoute,
    InactiveRoute,
    InvalidBinding,
    BindingMismatch,
}

/// One record of a route transition.
#[derive(Debug, Clone, Copy, PartialEq, Eq)]
pub struct RouteTransitionMessage {
    pub version: u16,
    pub stage: RouteTransitionStage,
    pub sequence: u64,
    pub base_route_epoch: u64,
    pub next_route_epoch: u64,
    pub expires_at_ns: u64,
    pub route_digest: [u8; 32],
    pub transcript_digest: [u8; 32],
}

impl RouteTransitionMessage {
    /// The same transition at another step.
    pub open spec fn at(self, stage: RouteTransitionStage) -> RouteTransitionMessage {
        RouteTransitionMessage { stage, ..self }
    }

    /// The same transition at another step.
    pub fn at_stage(self, stage: RouteTransitionStage) -> (message: RouteTransitionMessage)
        ensures
            message == self.at(stage),
    {
        RouteTransitionMessage { stage, ..self }
    }
}

/// Two records belong to one transition.
pub open spec fn same_transition(
    first: RouteTransitionMessage,
    second: RouteTransitionMessage,
) -> bool {
    &&& first.sequence == second.sequence
    &&& first.base_route_epoch == second.base_route_epoch
    &&& first.next_route_epoch == second.next_route_epoch
    &&& first.expires_at_ns == second.expires_at_ns
    &&& first.route_digest == second.route_digest
    &&& first.transcript_digest == second.transcript_digest
}

/// Whether two records belong to one transition.
pub fn same_route_transition(
    first: RouteTransitionMessage,
    second: RouteTransitionMessage,
) -> (same: bool)
    ensures
        same == same_transition(first, second),
{
    first.sequence == second.sequence && first.base_route_epoch == second.base_route_epoch
        && first.next_route_epoch == second.next_route_epoch && first.expires_at_ns
        == second.expires_at_ns && digests_equal(&first.route_digest, &second.route_digest)
        && digests_equal(&first.transcript_digest, &second.transcript_digest)
}

pub(crate) fn local(violation: RouteTransitionViolation) -> (error: ProductSessionError)
    ensures
        error == ProductSessionError::RouteTransition(violation),
{
    ProductSessionError::RouteTransition(violation)
}

pub(crate) fn remote(violation: RouteTransitionViolation) -> (error: ProductSessionError)
    ensures
        error == remote_fault(violation),
{
    ProductSessionError::PeerProtocol(ProductProtocolViolation::RouteTransition(violation))
}

/// The peer broke the route protocol.
pub open spec fn remote_fault(violation: RouteTransitionViolation) -> ProductSessionError {
    ProductSessionError::PeerProtocol(ProductProtocolViolation::RouteTransition(violation))
}

// ---------------------------------------------------------------------------
// Bindings
// ---------------------------------------------------------------------------
/// Route metadata as mathematics sees it.
pub struct BindingView {
    pub route_digest: [u8; 32],
    pub transcript_digest: [u8; 32],
    pub connection_id: usize,
    pub peer_fingerprint: [u8; 32],
}

impl BindingView {
    /// The record names this route and transcript.
    pub open spec fn covers(self, message: RouteTransitionMessage) -> bool {
        message.route_digest == self.route_digest && message.transcript_digest
            == self.transcript_digest
    }
}

/// Route metadata cryptographically bound to one authenticated connection. The
/// higher layer derives the route digest from verified nomination and consent
/// evidence; the transcript digest comes from the TLS exporter and cannot be
/// caller supplied.
#[derive(Debug, Clone, Copy, PartialEq, Eq)]
pub struct VerifiedRouteBinding {
    route_digest: [u8; 32],
    transcript_digest: [u8; 32],
    connection_id: usize,
    peer_fingerprint: [u8; 32],
}

impl View for VerifiedRouteBinding {
    type V = BindingView;

    closed spec fn view(&self) -> BindingView {
        BindingView {
            route_digest: self.route_digest,
            transcript_digest: self.transcript_digest,
            connection_id: self.connection_id,
            peer_fingerprint: self.peer_fingerprint,
        }
    }
}

impl VerifiedRouteBinding {
    /// The public material required to authenticate a route transition. The
    /// exporter secret itself is never exposed.
    pub fn transition_material(&self) -> (material: ([u8; 32], [u8; 32]))
        ensures
            material == (self@.route_digest, self@.transcript_digest),
    {
        (self.route_digest, self.transcript_digest)
    }

    /// Whether a record names this route and transcript.
    pub fn covers(&self, message: &RouteTransitionMessage) -> (covered: bool)
        ensures
            covered == self@.covers(*message),
    {
        digests_equal(&message.route_digest, &self.route_digest) && digests_equal(
            &message.transcript_digest,
            &self.transcript_digest,
        )
    }

    pub(crate) fn is_complete(&self) -> (complete: bool)
        ensures
            complete == (!is_zero_digest(self@.route_digest) && !is_zero_digest(
                self@.transcript_digest,
            )),
    {
        !digest_is_zero(&self.route_digest) && !digest_is_zero(&self.transcript_digest)
    }

    pub(crate) fn is_on(&self, connection_id: usize) -> (same: bool)
        ensures
            same == (self@.connection_id == connection_id),
    {
        self.connection_id == connection_id
    }

    pub(crate) fn shares_digest_with(&self, other: &VerifiedRouteBinding) -> (shared: bool)
        ensures
            shared == (self@.route_digest == other@.route_digest || self@.transcript_digest
                == other@.transcript_digest),
    {
        digests_equal(&self.route_digest, &other.route_digest) || digests_equal(
            &self.transcript_digest,
            &other.transcript_digest,
        )
    }

    pub(crate) fn has_same_peer(&self, other: &VerifiedRouteBinding) -> (same: bool)
        ensures
            same == (self@.peer_fingerprint == other@.peer_fingerprint),
    {
        digests_equal(&self.peer_fingerprint, &other.peer_fingerprint)
    }
}

/// The exporter context: the stamp in big-endian fields, then the digest.
pub open spec fn exporter_context(stamp: SessionStamp, route_digest: Seq<u8>) -> Seq<u8> {
    be_digits(stamp.session_id as int, 8) + be_digits(stamp.generation as int, 8) + be_digits(
        stamp.authorization_epoch as int,
        4,
    ) + be_digits(stamp.display_epoch as int, 4) + be_digits(stamp.codec_epoch as int, 4)
        + be_digits(stamp.route_epoch as int, 8) + route_digest
}

/// The context that a route's TLS exporter is keyed with.
pub fn route_exporter_context(stamp: SessionStamp, route_digest: [u8; 32]) -> (context: Vec<u8>)
    ensures
        context@ == exporter_context(stamp, route_digest@),
        context@.len() == 68,
{
    let mut context: Vec<u8> = Vec::new();
    push_u64(&mut context, stamp.session_id);
    push_u64(&mut context, stamp.generation);
    push_u32(&mut context, stamp.authorization_epoch);
    push_u32(&mut context, stamp.display_epoch);
    push_u32(&mut context, stamp.codec_epoch);
    push_u64(&mut context, stamp.route_epoch);
    append_bytes(&mut context, &route_digest);
    proof {
        assert(context@ =~= exporter_context(stamp, route_digest@));
        crate::bytes::lemma_bounds();
        crate::bytes::law_be_round_trip(stamp.session_id as int, 8);
        crate::bytes::law_be_round_trip(stamp.generation as int, 8);
        crate::bytes::law_be_round_trip(stamp.authorization_epoch as int, 4);
        crate::bytes::law_be_round_trip(stamp.display_epoch as int, 4);
        crate::bytes::law_be_round_trip(stamp.codec_epoch as int, 4);
        crate::bytes::law_be_round_trip(stamp.route_epoch as int, 8);
    }
    context
}

/// The label that a route transcript starts with.
pub open spec fn transcript_label() -> Seq<u8> {
    "latencydesk/product-route-transcript/v1"@.map_values(|c: char| c as u8)
}

/// What is hashed into a transcript digest.
pub open spec fn route_transcript(exporter: Seq<u8>, context: Seq<u8>) -> Seq<u8> {
    transcript_label() + exporter + context
}

fn push_transcript_label(target: &mut Vec<u8>)
    ensures
        final(target)@ == old(target)@ + transcript_label(),
{
    let label: [u8; 39] = [
        108,
        97,
        116,
        101,
        110,
        99,
        121,
        100,
        101,
        115,
        107,
        47,
        112,
        114,
        111,
        100,
        117,
        99,
        116,
        45,
        114,
        111,
        117,
        116,
        101,
        45,
        116,
        114,
        97,
        110,
        115,
        99,
        114,
        105,
        112,
        116,
        47,
        118,
        49,
    ];
    proof {
        reveal_strlit("latencydesk/product-route-transcript/v1");
        assert(label@ =~= transcript_label());
    }
    append_bytes(target, &label);
}

/// Why no binding comes about.
pub open spec fn binding_fault(
    route_digest: [u8; 32],
    peer_chain: Result<Seq<Seq<u8>>, QuicTransportError>,
    exporter: Result<Seq<u8>, QuicTransportError>,
) -> Option<ProductSessionError> {
    if is_zero_digest(route_digest) {
        Some(ProductSessionError::RouteTransition(RouteTransitionViolation::InvalidBinding))
    } else {
        match peer_chain {
            Err(error) => Some(ProductSessionError::Quic(error)),
            Ok(chain) => if chain.len() == 0 {
                Some(
                    ProductSessionError::RouteTransition(
                        RouteTransitionViolation::PeerIdentityMismatch,
                    ),
                )
            } else {
                match exporter {
                    Err(error) => Some(ProductSessionError::Quic(error)),
                    Ok(_) => None,
                }
            },
        }
    }
}

/// A certificate chain as sequences of bytes.
pub open spec fn chain_bytes(chain: Seq<Vec<u8>>) -> Seq<Seq<u8>> {
    Seq::new(chain.len(), |i: int| chain[i]@)
}

/// The view of a peer's certificate chain, or why there is none.
pub open spec fn chain_view(chain: Result<Vec<Vec<u8>>, QuicTransportError>) -> Result<
    Seq<Seq<u8>>,
    QuicTransportError,
> {
    match chain {
        Ok(chain) => Ok(chain_bytes(chain@)),
        Err(error) => Err(error),
    }
}

/// The view of exported keying material, or why there is none.
pub open spec fn exporter_view(exporter: Result<Vec<u8>, QuicTransportError>) -> Result<
    Seq<u8>,
    QuicTransportError,
> {
    match exporter {
        Ok(exporter) => Ok(exporter@),
        Err(error) => Err(error),
    }
}

/// Binds a higher-layer verified route digest to one exact TLS session.
/// `exporter` is keyed with [`route_exporter_context`] of the same stamp and
/// digest.
pub fn bind_authenticated_route(
    stamp: SessionStamp,
    route_digest: [u8; 32],
    peer_chain: Result<Vec<Vec<u8>>, QuicTransportError>,
    exporter: Result<Vec<u8>, QuicTransportError>,
    connection_id: usize,
) -> (result: Result<VerifiedRouteBinding, ProductSessionError>)
    ensures
        match binding_fault(route_digest, chain_view(peer_chain), exporter_view(exporter)) {
            Some(error) => result is Err && result->Err_0 == error,
            None => {
                &&& result is Ok
                &&& result->Ok_0@.route_digest == route_digest
                &&& result->Ok_0@.transcript_digest@ == sha256_digest(
                    route_transcript(
                        exporter->Ok_0@,
                        exporter_context(stamp, route_digest@),
                    ),
                )
                &&& result->Ok_0@.connection_id == connection_id
                &&& result->Ok_0@.peer_fingerprint@ == sha256_digest(peer_chain->Ok_0@[0]@)
            },
        },
{
    if digest_is_zero(&route_digest) {
        return Err(local(RouteTransitionViolation::InvalidBinding));
    }
    let peer_chain: Vec<Vec<u8>> = match peer_chain {
        Ok(chain) => chain,
        Err(error) => return Err(ProductSessionError::Quic(error)),
    };
    if peer_chain.len() == 0 {
        return Err(local(RouteTransitionViolation::PeerIdentityMismatch));
    }
    let exporter: Vec<u8> = match exporter {
        Ok(exporter) => exporter,
        Err(error) => return Err(ProductSessionError::Quic(error)),
    };
    let context: Vec<u8> = route_exporter_context(stamp, route_digest);
    let mut transcript: Vec<u8> = Vec::new();
    push_transcript_label(&mut transcript);
    append_bytes(&mut transcript, &exporter);
    append_bytes(&mut transcript, &context);
    proof {
        assert(transcript@ =~= route_transcript(exporter@, context@));
    }
    Ok(
        VerifiedRouteBinding {
            route_digest,
            transcript_digest: sha256(&transcript),
            connection_id,
            peer_fingerprint: sha256(&peer_chain[0]),
        },
    )
}

// ---------------------------------------------------------------------------
// The exchange on the wire
// ---------------------------------------------------------------------------
/// Where a route stands in the prepare, prepared, commit exchange.
#[derive(Debug, Clone, Copy, PartialEq, Eq)]
pub enum RouteWireState {
    Idle,
    PrepareSent(RouteTransitionMessage),
    PrepareReceived(RouteTransitionMessage),
    PreparedSent(RouteTransitionMessage),
    PreparedReceived(RouteTransitionMessage),
}

impl RouteWireState {
    /// The state after a record went out, if it may.
    pub open spec fn after_sending(self, message: RouteTransitionMessage) -> Option<
        RouteWireState,
    > {
        match (self, message.stage) {
            (RouteWireState::Idle, RouteTransitionStage::Prepare) => Some(
                RouteWireState::PrepareSent(message),
            ),
            (RouteWireState::PrepareReceived(prepare), RouteTransitionStage::Prepared) => if same_transition(
            prepare, message) {
                Some(RouteWireState::PreparedSent(message))
            } else {
                None
            },
            (RouteWireState::PreparedReceived(prepared), RouteTransitionStage::Commit) => if same_transition(
            prepared, message) {
                Some(RouteWireState::Idle)
            } else {
                None
            },
            _ => None,
        }
    }

    /// The state after a record came in, if it may.
    pub open spec fn after_receiving(self, message: RouteTransitionMessage) -> Option<
        RouteWireState,
    > {
        match (self, message.stage) {
            (RouteWireState::Idle, RouteTransitionStage::Prepare) => Some(
                RouteWireState::PrepareReceived(message),
            ),
            (RouteWireState::PrepareSent(prepare), RouteTransitionStage::Prepared) => if same_transition(
            prepare, message) {
                Some(RouteWireState::PreparedReceived(message))
            } else {
                None
            },
            (RouteWireState::PreparedSent(prepared), RouteTransitionStage::Commit) => if same_transition(
            prepared, message) {
                Some(RouteWireState::Idle)
            } else {
                None
            },
            _ => None,
        }
    }

    /// The state after sending a record.
    pub fn sent(self, message: RouteTransitionMessage) -> (result: Result<
        RouteWireState,
        RouteTransitionViolation,
    >)
        ensures
            result == (match self.after_sending(message) {
                Some(next) => Ok::<RouteWireState, RouteTransitionViolation>(next),
                None => Err::<RouteWireState, RouteTransitionViolation>(
                    RouteTransitionViolation::InvalidState,
                ),
            }),
    {
        match (self, message.stage) {
            (RouteWireState::Idle, RouteTransitionStage::Prepare) => Ok(
                RouteWireState::PrepareSent(message),
            ),
            (RouteWireState::PrepareReceived(prepare), RouteTransitionStage::Prepared) => {
                if same_route_transition(prepare, message) {
                    Ok(RouteWireState::PreparedSent(message))
                } else {
                    Err(RouteTransitionViolation::InvalidState)
                }
            },
            (RouteWireState::PreparedReceived(prepared), RouteTransitionStage::Commit) => {
                if same_route_transition(prepared, message) {
                    Ok(RouteWireState::Idle)
                } else {
                    Err(RouteTransitionViolation::InvalidState)
                }
            },
            _ => Err(RouteTransitionViolation::InvalidState),
        }
    }

    /// The state after receiving a record.
    pub fn received(self, message: RouteTransitionMessage) -> (result: Result<
        RouteWireState,
        RouteTransitionViolation,
    >)
        ensures
            result == (match self.after_receiving(message) {
                Some(next) => Ok::<RouteWireState, RouteTransitionViolation>(next),
                None => Err::<RouteWireState, RouteTransitionViolation>(
                    RouteTransitionViolation::InvalidState,
                ),
            }),
    {
        match (self, message.stage) {
            (RouteWireState::Idle, RouteTransitionStage::Prepare) => Ok(
                RouteWireState::PrepareReceived(message),
            ),
            (RouteWireState::PrepareSent(prepare), RouteTransitionStage::Prepared) => {
                if same_route_transition(prepare, message) {
                    Ok(RouteWireState::PreparedReceived(message))
                } else {
                    Err(RouteTransitionViolation::InvalidState)
                }
            },
            (RouteWireState::PreparedSent(prepared), RouteTransitionStage::Commit) => {
                if same_route_transition(prepared, message) {
                    Ok(RouteWireState::Idle)
                } else {
                    Err(RouteTransitionViolation::InvalidState)
                }
            },
            _ => Err(RouteTransitionViolation::InvalidState),
        }
    }
}

// ---------------------------------------------------------------------------
// One route
// ---------------------------------------------------------------------------
/// The state that every lane of one product connection consults.
#[derive(Debug, Clone, Copy, PartialEq, Eq)]
pub struct RouteLane {
    /// The stamp that the handshake agreed on.
    pub stamp: SessionStamp,
    pub route_epoch: u64,
    /// Sequence of the last committed transition.
    pub route_sequence: u64,
    /// Whether the application may use the lanes.
    pub authorized: bool,
    pub wire: RouteWireState,
}

/// Why the route epoch cannot move as asked.
pub open spec fn epoch_fault(
    lane: RouteLane,
    expected_current: u64,
    requested_next: u64,
) -> Option<ProductSessionError> {
    if expected_current + 1 != requested_next || lane.route_epoch != expected_current {
        Some(
            ProductSessionError::RouteEpochTransition {
                expected_current,
                actual_current: lane.route_epoch,
                requested_next,
            },
        )
    } else {
        None
    }
}

impl RouteLane {
    /// The stamp that records carry now.
    pub open spec fn current(self) -> SessionStamp {
        SessionStamp { route_epoch: self.route_epoch, ..self.stamp }
    }

    /// The sequence that the next prepare must have. After the last number
    /// comes zero.
    pub open spec fn due_sequence(self) -> u64 {
        if self.route_sequence == u64::MAX {
            0
        } else {
            (self.route_sequence + 1) as u64
        }
    }

    /// Why a record does not belong to the next transition.
    pub open spec fn order_fault(self, message: RouteTransitionMessage) -> Option<
        RouteTransitionViolation,
    > {
        if message.base_route_epoch != self.route_epoch {
            Some(
                RouteTransitionViolation::RouteEpoch {
                    expected: self.route_epoch,
                    actual: message.base_route_epoch,
                },
            )
        } else if message.stage == RouteTransitionStage::Prepare && message.sequence
            != self.due_sequence() {
            Some(
                RouteTransitionViolation::Sequence {
                    expected: self.due_sequence(),
                    actual: message.sequence,
                },
            )
        } else {
            None
        }
    }

    /// Why a record cannot be sent.
    pub open spec fn send_fault(
        self,
        message: RouteTransitionMessage,
        valid: Result<(), ProtocolError>,
        encoded: Result<(), ProtocolError>,
    ) -> Option<RouteTransitionViolation> {
        match valid {
            Err(error) => Some(RouteTransitionViolation::Malformed(error)),
            Ok(()) => if self.order_fault(message) is Some {
                self.order_fault(message)
            } else if self.wire.after_sending(message) is None {
                Some(RouteTransitionViolation::InvalidState)
            } else {
                match encoded {
                    Err(error) => Some(RouteTransitionViolation::Malformed(error)),
                    Ok(()) => None,
                }
            },
        }
    }

    /// The lane after a record was written, and what that gave.
    pub open spec fn sending(self, message: RouteTransitionMessage) -> (
        RouteLane,
        Result<(), ProductSessionError>,
    ) {
        match self.wire.after_sending(message) {
            None => (
                self,
                Err(ProductSessionError::RouteTransition(RouteTransitionViolation::InvalidState)),
            ),
            Some(next) => if message.stage == RouteTransitionStage::Commit {
                match epoch_fault(self, message.base_route_epoch, message.next_route_epoch) {
                    Some(error) => (self, Err(error)),
                    None => (
                        RouteLane {
                            route_epoch: message.next_route_epoch,
                            route_sequence: message.sequence,
                            wire: next,
                            ..self
                        },
                        Ok(()),
                    ),
                }
            } else {
                (RouteLane { wire: next, ..self }, Ok(()))
            },
        }
    }

    /// Why a received record is refused.
    pub open spec fn receive_fault(
        self,
        binding: Option<BindingView>,
        private: PrivateControl<RouteTransitionMessage>,
    ) -> Option<RouteTransitionViolation> {
        if !is_route_kind(private.kind) {
            Some(RouteTransitionViolation::UnexpectedKind(private.kind))
        } else {
            match private.body {
                Err(error) => Some(RouteTransitionViolation::Malformed(error)),
                Ok(message) => if message.stage.kind() != private.kind {
                    Some(
                        RouteTransitionViolation::StageKindMismatch {
                            stage: message.stage,
                            kind: private.kind,
                        },
                    )
                } else if binding is Some && !binding->Some_0.covers(message) {
                    Some(RouteTransitionViolation::BindingMismatch)
                } else if self.order_fault(message) is Some {
                    self.order_fault(message)
                } else if self.wire.after_receiving(message) is None {
                    Some(RouteTransitionViolation::InvalidState)
                } else {
                    None
                },
            }
        }
    }

    /// The lane after a record that it takes.
    pub open spec fn after_receiving(self, message: RouteTransitionMessage) -> RouteLane {
        let next = self.wire.after_receiving(message)->Some_0;
        if message.stage == RouteTransitionStage::Commit {
            RouteLane {
                route_epoch: message.next_route_epoch,
                route_sequence: message.sequence,
                wire: next,
                ..self
            }
        } else {
            RouteLane { wire: next, ..self }
        }
    }

    /// Why an activation or confirmation is refused.
    pub open spec fn activation_fault(
        self,
        binding: BindingView,
        commit: RouteTransitionMessage,
        stage: RouteTransitionStage,
        carried: SessionStamp,
        packet: Result<ReceivedControl<RouteTransitionMessage>, ProtocolError>,
    ) -> Option<ProductSessionError> {
        if carried != self.current() {
            Some(
                ProductSessionError::PeerProtocol(
                    ProductProtocolViolation::StampMismatch {
                        expected: self.current(),
                        actual: carried,
                    },
                ),
            )
        } else {
            match packet {
                Err(error) => Some(
                    ProductSessionError::PeerProtocol(
                        ProductProtocolViolation::MalformedControl(error),
                    ),
                ),
                Ok(packet) => match packet.body {
                    Err(error) => Some(
                        remote_fault(RouteTransitionViolation::Malformed(error)),
                    ),
                    Ok(message) => if packet.session_id != self.stamp.session_id || packet.kind
                        != stage.kind() || message.stage != stage || !same_transition(
                        message,
                        commit,
                    ) || !binding.covers(message) {
                        Some(remote_fault(RouteTransitionViolation::BindingMismatch))
                    } else {
                        None
                    },
                },
            }
        }
    }

    /// The lane after its epoch followed a committed transition.
    pub open spec fn following(self, message: RouteTransitionMessage) -> Result<
        RouteLane,
        ProductSessionError,
    > {
        let moved = RouteLane { route_sequence: message.sequence, ..self };
        if self.route_epoch == message.base_route_epoch {
            match epoch_fault(self, message.base_route_epoch, message.next_route_epoch) {
                Some(error) => Err(error),
                None => Ok(RouteLane { route_epoch: message.next_route_epoch, ..moved }),
            }
        } else if self.route_epoch == message.next_route_epoch {
            Ok(moved)
        } else {
            Err(
                ProductSessionError::RouteEpochTransition {
                    expected_current: message.base_route_epoch,
                    actual_current: self.route_epoch,
                    requested_next: message.next_route_epoch,
                },
            )
        }
    }

    /// A lane of a session that its handshake just activated.
    pub fn new(stamp: SessionStamp) -> (lane: RouteLane)
        ensures
            lane == (RouteLane {
                stamp,
                route_epoch: stamp.route_epoch,
                route_sequence: 0,
                authorized: true,
                wire: RouteWireState::Idle,
            }),
    {
        RouteLane {
            stamp,
            route_epoch: stamp.route_epoch,
            route_sequence: 0,
            authorized: true,
            wire: RouteWireState::Idle,
        }
    }

    /// Exact active stamp attached to every record of this route.
    pub fn stamp(&self) -> (stamp: SessionStamp)
        ensures
            stamp == self.current(),
    {
        SessionStamp { route_epoch: self.route_epoch, ..self.stamp }
    }

    /// Gives or takes the application's authority.
    pub fn set_authorized(&mut self, authorized: bool)
        ensures
            *final(self) == (RouteLane { authorized, ..*old(self) }),
    {
        self.authorized = authorized;
    }

    /// Moves the epoch by exactly one, from the epoch that the caller expects.
    pub fn advance_route_epoch(&mut self, expected_current: u64, requested_next: u64) -> (result:
        Result<SessionStamp, ProductSessionError>)
        ensures
            match epoch_fault(*old(self), expected_current, requested_next) {
                Some(error) => *final(self) == *old(self) && result == Err::<
                    SessionStamp,
                    ProductSessionError,
                >(error),
                None => *final(self) == (RouteLane {
                    route_epoch: requested_next,
                    ..*old(self)
                }) && result == Ok::<SessionStamp, ProductSessionError>(final(self).current()),
            },
    {
        let valid_next: bool = expected_current < u64::MAX && expected_current + 1
            == requested_next;
        if !valid_next || self.route_epoch != expected_current {
            return Err(
                ProductSessionError::RouteEpochTransition {
                    expected_current,
                    actual_current: self.route_epoch,
                    requested_next,
                },
            );
        }
        self.route_epoch = requested_next;
        Ok(self.stamp())
    }

    fn check_order(&self, message: &RouteTransitionMessage) -> (result: Result<
        (),
        RouteTransitionViolation,
    >)
        ensures
            result == (match self.order_fault(*message) {
                Some(violation) => Err::<(), RouteTransitionViolation>(violation),
                None => Ok::<(), RouteTransitionViolation>(()),
            }),
    {
        if message.base_route_epoch != self.route_epoch {
            return Err(
                RouteTransitionViolation::RouteEpoch {
                    expected: self.route_epoch,
                    actual: message.base_route_epoch,
                },
            );
        }
        if message.stage == RouteTransitionStage::Prepare {
            let expected: u64 = if self.route_sequence == u64::MAX {
                0
            } else {
                self.route_sequence + 1
            };
            if message.sequence != expected {
                return Err(
                    RouteTransitionViolation::Sequence { expected, actual: message.sequence },
                );
            }
        }
        Ok(())
    }

    /// Whether one authenticated prepare, prepared or commit record may be
    /// written. `valid` and `encoded` are the wire codec's verdicts.
    pub fn check_send(
        &self,
        message: RouteTransitionMessage,
        valid: Result<(), ProtocolError>,
        encoded: Result<(), ProtocolError>,
    ) -> (result: Result<(), ProductSessionError>)
        ensures
            result == (match self.send_fault(message, valid, encoded) {
                Some(violation) => Err::<(), ProductSessionError>(
                    ProductSessionError::RouteTransition(violation),
                ),
                None => Ok::<(), ProductSessionError>(()),
            }),
    {
        match valid {
            Err(error) => return Err(local(RouteTransitionViolation::Malformed(error))),
            Ok(()) => {},
        }
        match self.check_order(&message) {
            Err(violation) => return Err(local(violation)),
            Ok(()) => {},
        }
        match self.wire.sent(message) {
            Err(violation) => return Err(local(violation)),
            Ok(_) => {},
        }
        match encoded {
            Err(error) => Err(local(RouteTransitionViolation::Malformed(error))),
            Ok(()) => Ok(()),
        }
    }

    /// Takes note that a record was written. Only a matching commit advances
    /// the epoch that every lane of the route uses. On an error the connection
    /// is closed.
    pub fn record_sent(&mut self, message: RouteTransitionMessage) -> (result: Result<
        (),
        ProductSessionError,
    >)
        ensures
            (*final(self), result) == old(self).sending(message),
    {
        let next: RouteWireState = match self.wire.sent(message) {
            Ok(next) => next,
            Err(violation) => return Err(local(violation)),
        };
        if message.stage == RouteTransitionStage::Commit {
            match self.advance_route_epoch(message.base_route_epoch, message.next_route_epoch) {
                Err(error) => return Err(error),
                Ok(_) => {},
            }
            self.route_sequence = message.sequence;
        }
        self.wire = next;
        Ok(())
    }

    /// Takes one received transition record and enforces the prepare,
    /// prepared, commit order across both directions. On an error the
    /// connection is closed.
    pub fn receive_route_transition(
        &mut self,
        binding: Option<VerifiedRouteBinding>,
        private: PrivateControl<RouteTransitionMessage>,
    ) -> (result: Result<RouteTransitionMessage, ProductSessionError>)
        ensures
            match old(self).receive_fault(binding_view(binding), private) {
                Some(violation) => *final(self) == *old(self) && result == Err::<
                    RouteTransitionMessage,
                    ProductSessionError,
                >(remote_fault(violation)),
                None => private.body is Ok && *final(self) == old(self).after_receiving(
                    private.body->Ok_0,
                ) && result == Ok::<RouteTransitionMessage, ProductSessionError>(
                    private.body->Ok_0,
                ),
            },
    {
        if !is_route_control(private.kind) {
            return Err(remote(RouteTransitionViolation::UnexpectedKind(private.kind)));
        }
        let message: RouteTransitionMessage = match private.body {
            Ok(message) => message,
            Err(error) => return Err(remote(RouteTransitionViolation::Malformed(error))),
        };
        if message.stage.control_kind() != private.kind {
            return Err(
                remote(
                    RouteTransitionViolation::StageKindMismatch {
                        stage: message.stage,
                        kind: private.kind,
                    },
                ),
            );
        }
        match binding {
            Some(expected) => {
                if !expected.covers(&message) {
                    return Err(remote(RouteTransitionViolation::BindingMismatch));
                }
            },
            None => {},
        }
        match self.check_order(&message) {
            Err(violation) => return Err(remote(violation)),
            Ok(()) => {},
        }
        let next: RouteWireState = match self.wire.received(message) {
            Ok(next) => next,
            Err(violation) => return Err(remote(violation)),
        };
        if message.stage == RouteTransitionStage::Commit {
            self.route_epoch = message.next_route_epoch;
            self.route_sequence = message.sequence;
        }
        self.wire = next;
        Ok(message)
    }

    /// Takes one received activation or confirmation of a committed
    /// transition. On an error the connection is closed.
    pub fn receive_route_activation(
        &self,
        binding: VerifiedRouteBinding,
        commit: RouteTransitionMessage,
        stage: RouteTransitionStage,
        carried: SessionStamp,
        packet: Result<ReceivedControl<RouteTransitionMessage>, ProtocolError>,
    ) -> (result: Result<RouteTransitionMessage, ProductSessionError>)
        ensures
            match self.activation_fault(binding@, commit, stage, carried, packet) {
                Some(error) => result == Err::<RouteTransitionMessage, ProductSessionError>(error),
                None => packet is Ok && packet->Ok_0.body is Ok && result == Ok::<
                    RouteTransitionMessage,
                    ProductSessionError,
                >(packet->Ok_0.body->Ok_0),
            },
    {
        match check_stamp(self.stamp(), carried) {
            Err(error) => return Err(error),
            Ok(()) => {},
        }
        let packet = match packet {
            Ok(packet) => packet,
            Err(error) => return Err(
                ProductSessionError::PeerProtocol(
                    ProductProtocolViolation::MalformedControl(error),
                ),
            ),
        };
        let message: RouteTransitionMessage = match packet.body {
            Ok(message) => message,
            Err(error) => return Err(remote(RouteTransitionViolation::Malformed(error))),
        };
        if packet.session_id != self.stamp.session_id || packet.kind != stage.control_kind()
            || message.stage != stage || !same_route_transition(message, commit)
            || !binding.covers(&message) {
            return Err(remote(RouteTransitionViolation::BindingMismatch));
        }
        Ok(message)
    }

    /// Follows a transition that the other route of a set committed.
    pub fn follow(&mut self, message: &RouteTransitionMessage) -> (result: Result<
        (),
        ProductSessionError,
    >)
        ensures
            match old(self).following(*message) {
                Err(error) => *final(self) == *old(self) && result == Err::<
                    (),
                    ProductSessionError,
                >(error),
                Ok(lane) => *final(self) == lane && result == Ok::<(), ProductSessionError>(()),
            },
    {
        if self.route_epoch == message.base_route_epoch {
            match self.advance_route_epoch(message.base_route_epoch, message.next_route_epoch) {
                Err(error) => return Err(error),
                Ok(_) => {},
            }
        } else if self.route_epoch != message.next_route_epoch {
            return Err(
                ProductSessionError::RouteEpochTransition {
                    expected_current: message.base_route_epoch,
                    actual_current: self.route_epoch,
                    requested_next: message.next_route_epoch,
                },
            );
        }
        self.route_sequence = message.sequence;
        Ok(())
    }
}

/// The view of a binding that may be missing.
pub open spec fn binding_view(binding: Option<VerifiedRouteBinding>) -> Option<BindingView> {
    match binding {
        Some(binding) => Some(binding@),
        None => None,
    }
}

/// Whether an activation or confirmation may be written.
pub fn check_route_activation(
    message: &RouteTransitionMessage,
    encoded: Result<(), ProtocolError>,
) -> (result: Result<(), ProductSessionError>)
    ensures
        result == (if message.stage != RouteTransitionStage::Activated && message.stage
            != RouteTransitionStage::Confirmed {
            Err::<(), ProductSessionError>(
                ProductSessionError::RouteTransition(RouteTransitionViolation::InvalidState),
            )
        } else {
            match encoded {
                Err(error) => Err::<(), ProductSessionError>(
                    ProductSessionError::RouteTransition(
                        RouteTransitionViolation::Malformed(error),
                    ),
                ),
                Ok(()) => Ok::<(), ProductSessionError>(()),
            }
        }),
{
    if message.stage != RouteTransitionStage::Activated && message.stage
        != RouteTransitionStage::Confirmed {
        return Err(local(RouteTransitionViolation::InvalidState));
    }
    match encoded {
        Err(error) => Err(local(RouteTransitionViolation::Malformed(error))),
        Ok(()) => Ok(()),
    }
}

// ---------------------------------------------------------------------------
// Laws
// ---------------------------------------------------------------------------
/// Sending never moves the epoch except by a commit, and then by exactly one.
pub proof fn law_epoch_moves_by_commit_only(lane: RouteLane, message: RouteTransitionMessage)
    ensures
        ({
            let next = lane.sending(message).0;
            &&& next.route_epoch == lane.route_epoch || next.route_epoch == lane.route_epoch + 1
            &&& next.route_epoch != lane.route_epoch ==> message.stage
                == RouteTransitionStage::Commit && next.wire == RouteWireState::Idle
            &&& next.authorized == lane.authorized
        }),
{
}

/// A transition that one peer starts and the other answers moves both from the
/// same epoch to the next one, leaves both idle, and makes the sequence number
/// due no more.
pub proof fn law_commit_moves_both_peers(
    first: RouteLane,
    second: RouteLane,
    binding: BindingView,
    prepare: RouteTransitionMessage,
)
    requires
        first.wire == RouteWireState::Idle,
        second.wire == RouteWireState::Idle,
        first.route_epoch == second.route_epoch,
        first.route_sequence == second.route_sequence,
        prepare.stage == RouteTransitionStage::Prepare,
        prepare.sequence == first.due_sequence(),
        prepare.base_route_epoch == first.route_epoch,
        prepare.next_route_epoch == first.route_epoch + 1,
        binding.covers(prepare),
    ensures
        ({
            let prepared = prepare.at(RouteTransitionStage::Prepared);
            let commit = prepare.at(RouteTransitionStage::Commit);
            let first1 = first.sending(prepare).0;
            let second1 = second.after_receiving(prepare);
            let second2 = second1.sending(prepared).0;
            let first2 = first1.after_receiving(prepared);
            let first3 = first2.sending(commit).0;
            let second3 = second2.after_receiving(commit);
            &&& first.send_fault(prepare, Ok(()), Ok(())) is None
            &&& first.sending(prepare).1 is Ok
            &&& second.receive_fault(Some(binding), carrying(prepare)) is None
            &&& second1.send_fault(prepared, Ok(()), Ok(())) is None
            &&& second1.sending(prepared).1 is Ok
            &&& first1.receive_fault(Some(binding), carrying(prepared)) is None
            &&& first2.send_fault(commit, Ok(()), Ok(())) is None
            &&& first2.sending(commit).1 is Ok
            &&& second2.receive_fault(Some(binding), carrying(commit)) is None
            &&& first3 == (RouteLane {
                route_epoch: prepare.next_route_epoch,
                route_sequence: prepare.sequence,
                ..first
            })
            &&& second3 == (RouteLane {
                route_epoch: prepare.next_route_epoch,
                route_sequence: prepare.sequence,
                ..second
            })
            &&& first3.order_fault(prepare) is Some
        }),
{
}

/// The control record that carries a transition message.
pub open spec fn carrying(message: RouteTransitionMessage) -> PrivateControl<
    RouteTransitionMessage,
> {
    PrivateControl { kind: message.stage.kind(), body: Ok(message) }
}

/// A commit without a preceding prepared record is refused in both directions.
pub proof fn law_no_commit_without_prepare(
    lane: RouteLane,
    binding: Option<BindingView>,
    message: RouteTransitionMessage,
)
    requires
        lane.wire == RouteWireState::Idle,
        message.stage == RouteTransitionStage::Commit,
    ensures
        lane.send_fault(message, Ok(()), Ok(())) is Some,
        lane.receive_fault(binding, carrying(message)) is Some,
        lane.sending(message) == (
            lane,
            Err::<(), ProductSessionError>(
                ProductSessionError::RouteTransition(RouteTransitionViolation::InvalidState),
            ),
        ),
{
}

} // verus!
