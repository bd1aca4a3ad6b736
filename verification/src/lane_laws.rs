//! Which control records a session takes, in plain terms.

use crate::control::{ControlKind, ReceivedControl, SessionStamp, StreamKind};
use crate::error::ProtocolError;
use crate::product::{
    activation_fault, advertisement_fault, control_fault, credentials_fault, generic_control_fault,
    handshake_fault, is_route_kind, send_role_fault, stamp_fault, succeeds, CandidateExchange,
    CandidateExchangeTracker, CandidateExchangeViolation, IceCredentialExchange,
    IceGenerationTracker, IceGenerationViolation, IceSignalingMode, IceSignalingRoles,
    PrivateControl, ProductProtocolViolation, ProductSessionError,
    DEFAULT_PRODUCT_HANDSHAKE_TIMEOUT_MS, PRODUCT_HANDSHAKE_TIMEOUT_CODE,
};
use crate::quic::PROTOCOL_VIOLATION_CODE;
use crate::route::RouteTransitionViolation;
use crate::session::HandshakeCompletedMessage;
use vstd::prelude::*;

verus! {

/// A handshake may take five seconds. What closes a connection has a number of
/// its own.
pub proof fn law_session_limits()
    ensures
        DEFAULT_PRODUCT_HANDSHAKE_TIMEOUT_MS == 5_000,
        PRODUCT_HANDSHAKE_TIMEOUT_CODE == 258,
        PROTOCOL_VIOLATION_CODE == 256,
{
}

// ---------------------------------------------------------------------------
// Candidate advertisements
// ---------------------------------------------------------------------------
/// The first advertisement has generation one, under any identity. Each later
/// one has the identity of the first and the generation after the last. All of
/// these are taken, and nothing else is.
pub proof fn law_next_advertisement_is_taken(
    tracker: CandidateExchangeTracker,
    exchange: CandidateExchange,
)
    ensures
        tracker.exchange_id is None ==> (tracker.fault(exchange) is None <==> exchange.generation
            == 1),
        tracker.exchange_id matches Some(id) ==> (tracker.fault(exchange) is None <==> (
        exchange.exchange_id == id && exchange.generation == tracker.generation + 1)),
        tracker.exchange_id is None && exchange.generation != 1 ==> tracker.fault(exchange)
            == Some(
            CandidateExchangeViolation::Generation { expected: 1, actual: exchange.generation },
        ),
        tracker.exchange_id matches Some(id) ==> exchange.exchange_id != id ==> tracker.fault(
            exchange,
        ) == Some(
            CandidateExchangeViolation::ExchangeId { expected: id, actual: exchange.exchange_id },
        ),
        tracker.exchange_id == Some(exchange.exchange_id) && tracker.generation == 0xffff_ffff
            ==> tracker.fault(exchange) == Some(CandidateExchangeViolation::GenerationExhausted),
        tracker.exchange_id == Some(exchange.exchange_id) && tracker.generation < 0xffff_ffff
            && exchange.generation != tracker.generation + 1 ==> tracker.fault(exchange) == Some(
            CandidateExchangeViolation::Generation {
                expected: (tracker.generation + 1) as u32,
                actual: exchange.generation,
            },
        ),
        tracker.advanced(exchange).exchange_id == Some(exchange.exchange_id),
        tracker.advanced(exchange).generation == exchange.generation,
{
}

/// A received advertisement is taken exactly if it is one, was decoded, is of
/// this session, and continues the sequence.
pub proof fn law_advertisement_belongs_to_the_session(
    tracker: CandidateExchangeTracker,
    session_id: u64,
    kind: ControlKind,
    exchange: CandidateExchange,
    error: ProtocolError,
)
    ensures
        ({
            let verdict = advertisement_fault(
                tracker,
                session_id,
                PrivateControl { kind, body: Ok(exchange) },
            );
            let refused = advertisement_fault(
                tracker,
                session_id,
                PrivateControl { kind, body: Err(error) },
            );
            let candidate = kind is IceCandidate;
            &&& verdict is None <==> (candidate && exchange.exchange_id == session_id
                && tracker.fault(exchange) is None)
            &&& !candidate ==> verdict == Some(
                ProductProtocolViolation::UnexpectedCandidateKind { actual: kind },
            ) && refused == verdict
            &&& candidate ==> refused == Some(
                ProductProtocolViolation::CandidateExchange(
                    CandidateExchangeViolation::Malformed(error),
                ),
            )
            &&& candidate && exchange.exchange_id != session_id ==> verdict == Some(
                ProductProtocolViolation::CandidateExchange(
                    CandidateExchangeViolation::ExchangeId {
                        expected: session_id,
                        actual: exchange.exchange_id,
                    },
                ),
            )
            &&& candidate && exchange.exchange_id == session_id && tracker.fault(exchange) is Some
                ==> verdict == Some(
                ProductProtocolViolation::CandidateExchange(tracker.fault(exchange)->Some_0),
            )
        }),
{
}

// ---------------------------------------------------------------------------
// ICE generations
// ---------------------------------------------------------------------------
/// A style of signaling can be used exactly if no write was interrupted and the
/// other style was not used before.
pub proof fn law_one_signaling_style_is_used(
    tracker: IceGenerationTracker,
    requested: IceSignalingMode,
)
    ensures
        tracker.poisoned ==> tracker.mode_fault(requested) == Some(
            IceGenerationViolation::Poisoned,
        ),
        !tracker.poisoned && (tracker.mode is None || tracker.mode == Some(requested))
            ==> tracker.mode_fault(requested) is None,
        !tracker.poisoned && tracker.mode is Some && tracker.mode != Some(requested)
            ==> tracker.mode_fault(requested) == Some(IceGenerationViolation::ModeConflict),
{
}

/// Credentials open a generation exactly if they are of this session and the
/// next in line, no generation is open, and credentials are the style in use.
pub proof fn law_next_credentials_open_a_generation(
    tracker: IceGenerationTracker,
    credentials: IceCredentialExchange,
    session_id: u64,
)
    ensures
        ({
            let usable = !tracker.poisoned && (tracker.mode is None || tracker.mode == Some(
                IceSignalingMode::CredentialGenerations,
            ));
            let ours = credentials.exchange_id == session_id;
            let next = credentials.generation == tracker.generation + 1;
            let verdict = tracker.begin_fault(credentials, session_id);
            &&& verdict is None <==> (usable && ours && next && tracker.pending is None)
            &&& usable && !ours ==> verdict == Some(
                IceGenerationViolation::ExchangeId {
                    expected: session_id,
                    actual: credentials.exchange_id,
                },
            )
            &&& usable && ours && tracker.generation == 0xffff_ffff ==> verdict == Some(
                IceGenerationViolation::GenerationExhausted,
            )
            &&& usable && ours && tracker.generation < 0xffff_ffff && !next ==> verdict == Some(
                IceGenerationViolation::Generation {
                    expected: (tracker.generation + 1) as u32,
                    actual: credentials.generation,
                },
            )
            &&& usable && ours && next && tracker.pending is Some ==> verdict == Some(
                IceGenerationViolation::Pending,
            )
        }),
        ({
            let open = tracker.begun(credentials, session_id);
            &&& open.pending == Some(credentials.generation)
            &&& open.exchange_id == Some(session_id)
            &&& open.mode == Some(IceSignalingMode::CredentialGenerations)
            &&& open.generation == tracker.generation
            &&& open.poisoned == tracker.poisoned
        }),
{
}

/// Candidates close the open generation exactly if they carry its identity and
/// its number. Then that number is the last one.
pub proof fn law_matching_candidates_close_the_generation(
    tracker: IceGenerationTracker,
    candidates: CandidateExchange,
    id: u64,
    generation: u32,
)
    requires
        tracker.exchange_id == Some(id),
    ensures
        tracker.pending == Some(generation) ==> (tracker.finish_fault(candidates) is None <==> (
        candidates.exchange_id == id && candidates.generation == generation)),
        tracker.pending is None ==> tracker.finish_fault(candidates) == Some(
            IceGenerationViolation::CandidateBeforeCredentials,
        ),
        tracker.pending == Some(generation) && candidates.exchange_id != id
            ==> tracker.finish_fault(candidates) == Some(
            IceGenerationViolation::ExchangeId { expected: id, actual: candidates.exchange_id },
        ),
        tracker.pending == Some(generation) && candidates.exchange_id == id
            && candidates.generation != generation ==> tracker.finish_fault(candidates) == Some(
            IceGenerationViolation::Generation {
                expected: generation,
                actual: candidates.generation,
            },
        ),
        tracker.pending == Some(generation) ==> tracker.finished() == (IceGenerationTracker {
            exchange_id: tracker.exchange_id,
            generation,
            pending: None,
            mode: tracker.mode,
            poisoned: tracker.poisoned,
        }),
{
}

/// Credentials are sent under one's own role and taken under the peer's, and
/// only where both roles were agreed.
pub proof fn law_credentials_name_the_role_of_their_sender(
    tracker: IceGenerationTracker,
    roles: IceSignalingRoles,
    session_id: u64,
    kind: ControlKind,
    credentials: IceCredentialExchange,
    error: ProtocolError,
)
    ensures
        send_role_fault(None, credentials) == Some(
            IceGenerationViolation::IceSignalingNotNegotiated,
        ),
        credentials.role == roles.local ==> send_role_fault(Some(roles), credentials) is None,
        credentials.role != roles.local ==> send_role_fault(Some(roles), credentials) == Some(
            IceGenerationViolation::RoleMismatch {
                expected: roles.local,
                actual: credentials.role,
            },
        ),
        ({
            let verdict = credentials_fault(
                tracker,
                roles,
                session_id,
                PrivateControl { kind, body: Ok(credentials) },
            );
            let refused = credentials_fault(
                tracker,
                roles,
                session_id,
                PrivateControl { kind, body: Err(error) },
            );
            let right = kind is IceCredentials;
            let ours = credentials.exchange_id == session_id;
            &&& verdict is None <==> (right && ours && credentials.role == roles.remote
                && tracker.begin_fault(credentials, session_id) is None)
            &&& !right ==> verdict == Some(
                ProductProtocolViolation::UnexpectedCredentialsKind { actual: kind },
            ) && refused == verdict
            &&& right ==> refused == Some(
                ProductProtocolViolation::IceGeneration(IceGenerationViolation::Malformed(error)),
            )
            &&& right && !ours ==> verdict == Some(
                ProductProtocolViolation::IceGeneration(
                    IceGenerationViolation::ExchangeId {
                        expected: session_id,
                        actual: credentials.exchange_id,
                    },
                ),
            )
            &&& right && ours && credentials.role != roles.remote ==> verdict == Some(
                ProductProtocolViolation::IceGeneration(
                    IceGenerationViolation::RoleMismatch {
                        expected: roles.remote,
                        actual: credentials.role,
                    },
                ),
            )
            &&& right && ours && credentials.role == roles.remote && tracker.begin_fault(
                credentials,
                session_id,
            ) is Some ==> verdict == Some(
                ProductProtocolViolation::IceGeneration(
                    tracker.begin_fault(credentials, session_id)->Some_0,
                ),
            )
        }),
{
}

// ---------------------------------------------------------------------------
// Stamps and the handshake
// ---------------------------------------------------------------------------
/// A stamp is active exactly if the codec takes it and authorization, display
/// and codec have each started.
pub proof fn law_started_stamps_are_active(stamp: SessionStamp, error: ProtocolError)
    ensures
        stamp_fault(stamp, Ok(())) is None <==> (stamp.authorization_epoch >= 1
            && stamp.display_epoch >= 1 && stamp.codec_epoch >= 1),
        stamp_fault(stamp, Ok(())) is Some ==> stamp_fault(stamp, Ok(())) == Some(
            ProtocolError::InvalidSessionStamp,
        ),
        stamp_fault(stamp, Err(error)) == Some(error),
{
}

/// Sixteen bytes, all of them zero.
pub open spec fn all_zero(nonce: [u8; 16]) -> bool {
    forall|i: int| 0 <= i < 16 ==> #[trigger] nonce@[i] == 0
}

/// A client takes the first record of a host exactly if it completes a
/// handshake under an active stamp, with the session and the authorization of
/// that stamp inside and outside, and no nonce. It tells the first of these
/// that fails.
pub proof fn law_first_record_completes_the_handshake(
    stamp: SessionStamp,
    kind: ControlKind,
    session_id: u64,
    completed: HandshakeCompletedMessage,
    error: ProtocolError,
)
    ensures
        ({
            let active = stamp.authorization_epoch >= 1 && stamp.display_epoch >= 1
                && stamp.codec_epoch >= 1;
            let right = kind is HandshakeCompleted;
            let outside = session_id == stamp.session_id;
            let inside = completed.session_id == stamp.session_id;
            let authorized = completed.authorization_epoch == stamp.authorization_epoch;
            let verdict = handshake_fault(
                stamp,
                Ok(()),
                Ok(ReceivedControl { kind, session_id, body: Ok(completed) }),
            );
            &&& verdict is None <==> (active && right && outside && inside && authorized
                && all_zero(completed.server_nonce))
            &&& !active ==> verdict == Some(
                ProductSessionError::PeerProtocol(
                    ProductProtocolViolation::InvalidHandshakeStamp(stamp),
                ),
            )
            &&& active && !right ==> verdict == Some(
                ProductSessionError::PeerProtocol(
                    ProductProtocolViolation::UnexpectedHandshakeKind(kind),
                ),
            )
            &&& active && right && !outside ==> verdict == Some(
                ProductSessionError::PeerProtocol(
                    ProductProtocolViolation::ControlSessionMismatch {
                        expected: stamp.session_id,
                        actual: session_id,
                    },
                ),
            )
            &&& active && right && outside && !inside ==> verdict == Some(
                ProductSessionError::PeerProtocol(
                    ProductProtocolViolation::HandshakeSessionMismatch {
                        expected: stamp.session_id,
                        actual: completed.session_id,
                    },
                ),
            )
            &&& active && right && outside && inside && !authorized ==> verdict == Some(
                ProductSessionError::PeerProtocol(
                    ProductProtocolViolation::HandshakeAuthorizationMismatch {
                        expected: stamp.authorization_epoch,
                        actual: completed.authorization_epoch,
                    },
                ),
            )
            &&& active && right && outside && inside && authorized && !all_zero(
                completed.server_nonce,
            ) ==> verdict == Some(
                ProductSessionError::PeerProtocol(ProductProtocolViolation::HandshakeNonceMismatch),
            )
            &&& active ==> handshake_fault(stamp, Ok(()), Err(error)) == Some(
                ProductSessionError::Protocol(error),
            )
            &&& active && right && outside ==> handshake_fault(
                stamp,
                Ok(()),
                Ok(ReceivedControl { kind, session_id, body: Err(error) }),
            ) == Some(ProductSessionError::Protocol(error))
        }),
{
    assert(crate::product::is_zero_nonce(completed.server_nonce) <==> all_zero(
        completed.server_nonce,
    ));
}

/// A session replaces another exactly if its identity is new and its
/// generation and all three lifecycle epochs are greater. The route epoch does
/// not count.
pub proof fn law_successor_advances_every_epoch(
    previous: SessionStamp,
    stamp: SessionStamp,
    lane: StreamKind,
    pending: Result<(), ProtocolError>,
    control: Result<ReceivedControl<HandshakeCompletedMessage>, ProtocolError>,
)
    ensures
        ({
            let newer = stamp.session_id != previous.session_id && previous.generation
                < stamp.generation && previous.authorization_epoch < stamp.authorization_epoch
                && previous.display_epoch < stamp.display_epoch && previous.codec_epoch
                < stamp.codec_epoch;
            let complete = handshake_fault(stamp, pending, control) is None;
            let first = activation_fault(lane, stamp, pending, control, None);
            let next = activation_fault(lane, stamp, pending, control, Some(previous));
            &&& succeeds(previous, stamp) == newer
            &&& first is None <==> lane is Control && complete
            &&& next is None <==> lane is Control && complete && newer
            &&& lane is Input ==> first == next && first == Some(
                ProductSessionError::PeerProtocol(
                    ProductProtocolViolation::UnexpectedLane {
                        expected: StreamKind::Control,
                        actual: StreamKind::Input,
                    },
                ),
            )
            &&& lane is Control && !complete ==> first == next && first == handshake_fault(
                stamp,
                pending,
                control,
            )
            &&& lane is Control && complete && !newer ==> next == Some(
                ProductSessionError::PeerProtocol(
                    ProductProtocolViolation::NonMonotonicSuccessor { previous, actual: stamp },
                ),
            )
        }),
{
}

// ---------------------------------------------------------------------------
// Lanes
// ---------------------------------------------------------------------------
/// The generic lane carries every kind of record but those of ICE signaling and
/// of route transitions.
pub proof fn law_typed_records_have_their_own_lane(kind: ControlKind)
    ensures
        is_route_kind(kind) <==> (kind is RoutePrepare || kind is RoutePrepared
            || kind is RouteCommit || kind is RouteActivated || kind is RouteConfirmed),
        kind is IceCredentials || kind is IceCandidate ==> generic_control_fault(kind) == Some(
            ProductSessionError::IceGeneration(IceGenerationViolation::IceControlRequiresTypedApi),
        ),
        kind is RoutePrepare || kind is RoutePrepared || kind is RouteCommit
            || kind is RouteActivated || kind is RouteConfirmed ==> generic_control_fault(kind)
            == Some(
            ProductSessionError::RouteTransition(RouteTransitionViolation::ControlRequiresTypedApi),
        ),
        generic_control_fault(kind) is None <==> (kind is Hello || kind is HelloAck
            || kind is Authenticate || kind is HandshakeCompleted || kind is Capabilities
            || kind is ConfigureStream || kind is IceProbe || kind is Other),
{
}

/// A control record is taken exactly if the route has authority or needs none,
/// and the record carries the active stamp outside and its session inside.
pub proof fn law_records_of_the_session_are_taken<T>(
    authorized: bool,
    allow_inactive: bool,
    active: SessionStamp,
    carried: SessionStamp,
    packet: ReceivedControl<T>,
    error: ProtocolError,
)
    ensures
        ({
            let allowed = authorized || allow_inactive;
            let verdict = control_fault(authorized, allow_inactive, active, carried, Ok(packet));
            let refused = control_fault::<T>(
                authorized,
                allow_inactive,
                active,
                carried,
                Err(error),
            );
            &&& verdict is None <==> (allowed && carried == active && packet.session_id
                == active.session_id)
            &&& !allowed ==> refused == verdict && verdict == Some(
                ProductSessionError::RouteTransition(RouteTransitionViolation::InactiveRoute),
            )
            &&& allowed && carried != active ==> refused == verdict && verdict == Some(
                ProductSessionError::PeerProtocol(
                    ProductProtocolViolation::StampMismatch { expected: active, actual: carried },
                ),
            )
            &&& allowed && carried == active ==> refused == Some(
                ProductSessionError::PeerProtocol(ProductProtocolViolation::MalformedControl(error)),
            )
            &&& allowed && carried == active && packet.session_id != active.session_id
                ==> verdict == Some(
                ProductSessionError::PeerProtocol(
                    ProductProtocolViolation::ControlSessionMismatch {
                        expected: active.session_id,
                        actual: packet.session_id,
                    },
                ),
            )
        }),
{
}

} // verus!
