//! Application-neutral production session semantics over authenticated QUIC.
//!
//! Identity enrollment, certificate creation, and certificate verification are
//! deliberately outside this module: a connection has already completed the
//! caller-configured mutual-TLS handshake.

use crate::control::{ControlKind, OutgoingControl, ReceivedControl, SessionStamp, StreamKind};
use crate::error::{ProtocolError, TransportError};
use crate::fragment::{
    fragment_error, fragment_frame_with_packet_budget, fragments, packet_views, FragmentSpec,
    MAX_DATAGRAM_MTU,
};
use crate::media::{MediaHeader, MediaPacket, MediaWire, PacketView};
use crate::quic::{MediaSendOutcome, QuicTransportError};
use crate::reassembly::{
    decoded_view, result_view, IngestOutcome, OutcomeView, ReassembledFrame, Reassembler,
    ReassemblerView, ReassemblyConfig,
};
use crate::route::RouteTransitionViolation;
use crate::session::HandshakeCompletedMessage;
use vstd::prelude::*;

verus! {

/// Local bound on the product handshake, in milliseconds.
pub const DEFAULT_PRODUCT_HANDSHAKE_TIMEOUT_MS: u64 = 5_000;

/// Application error code for a handshake that took too long.
pub const PRODUCT_HANDSHAKE_TIMEOUT_CODE: u32 = 0x102;

/// Which side of ICE a peer signals for.
#[derive(Debug, Clone, Copy, PartialEq, Eq, Structural)]
pub enum IceCredentialRole {
    Controlling,
    Controlled,
}

/// The identity of a candidate advertisement.
#[derive(Debug, Clone, Copy, PartialEq, Eq, Structural)]
pub struct CandidateExchange {
    pub exchange_id: u64,
    pub generation: u32,
}

/// The identity of a credential record.
#[derive(Debug, Clone, Copy, PartialEq, Eq, Structural)]
pub struct IceCredentialExchange {
    pub exchange_id: u64,
    pub generation: u32,
    pub role: IceCredentialRole,
}

/// Why a candidate advertisement is refused.
#[derive(Debug, Clone, Copy, PartialEq, Eq, Structural)]
pub enum CandidateExchangeViolation {
    Malformed(ProtocolError),
    ExchangeId { expected: u64, actual: u64 },
    Generation { expected: u32, actual: u32 },
    GenerationExhausted,
}

/// Why an ICE generation is refused.
#[derive(Debug, Clone, Copy, PartialEq, Eq, Structural)]
pub enum IceGenerationViolation {
    Malformed(ProtocolError),
    ExchangeId { expected: u64, actual: u64 },
    Generation { expected: u32, actual: u32 },
    GenerationExhausted,
    Pending,
    CandidateBeforeCredentials,
    IceControlRequiresTypedApi,
    IceCapabilityNotNegotiated,
    IceSignalingNotNegotiated,
    ModeConflict,
    Poisoned,
    RoleMismatch { expected: IceCredentialRole, actual: IceCredentialRole },
}

/// Peer behaviors that violate the product session protocol.
#[derive(Debug, Clone, Copy, PartialEq, Eq, Structural)]
pub enum ProductProtocolViolation {
    /// A reliable stream was opened for a lane that is not valid at this point.
    UnexpectedLane { expected: StreamKind, actual: StreamKind },
    /// A record carried a different session identity or lifecycle epoch.
    StampMismatch { expected: SessionStamp, actual: SessionStamp },
    /// The initial control record did not carry the canonical active stamp.
    InvalidHandshakeStamp(SessionStamp),
    /// The initial control payload was not a handshake-completion record.
    UnexpectedHandshakeKind(ControlKind),
    /// The nested control header was not bound to the outer session stamp.
    ControlSessionMismatch { expected: u64, actual: u64 },
    /// The reliable control record did not contain a valid bounded packet.
    MalformedControl(ProtocolError),
    /// The handshake body was not bound to the outer session stamp.
    HandshakeSessionMismatch { expected: u64, actual: u64 },
    /// The handshake body carried another authorization epoch.
    HandshakeAuthorizationMismatch { expected: u32, actual: u32 },
    /// The handshake used a nonzero nonce value.
    HandshakeNonceMismatch,
    /// A control record was not a candidate advertisement.
    UnexpectedCandidateKind { actual: ControlKind },
    /// A control record did not carry credentials.
    UnexpectedCredentialsKind { actual: ControlKind },
    /// Candidate advertisement bytes or ordering were invalid.
    CandidateExchange(CandidateExchangeViolation),
    IceGeneration(IceGenerationViolation),
    RouteTransition(RouteTransitionViolation),
    /// A replacement connection reused its session identity or did not advance
    /// every lifecycle epoch beyond the prior authenticated session.
    NonMonotonicSuccessor { previous: SessionStamp, actual: SessionStamp },
}

/// Product-session construction, framing, and bounded-media failures.
#[derive(Debug, Clone, Copy, PartialEq, Eq, Structural)]
pub enum ProductSessionError {
    Quic(QuicTransportError),
    Protocol(ProtocolError),
    Transport(TransportError),
    PeerProtocol(ProductProtocolViolation),
    CandidateExchange(CandidateExchangeViolation),
    IceGeneration(IceGenerationViolation),
    RouteTransition(RouteTransitionViolation),
    /// A route commit must advance exactly once from the currently active epoch.
    RouteEpochTransition { expected_current: u64, actual_current: u64, requested_next: u64 },
    /// QUIC DATAGRAM support was not negotiated.
    DatagramsUnsupported,
    /// The path cannot fit an outer QUIC-media header, one inner media header,
    /// and at least one payload byte.
    DatagramBudgetTooSmall {
        path_max_datagram_bytes: usize,
        outer_header_bytes: usize,
        minimum_inner_datagram_bytes: usize,
    },
    /// A nonzero finite media lifetime is required.
    InvalidMediaMaxAge,
    /// Sender-local deadline arithmetic exceeded the wire clock range.
    MediaDeadlineOverflow,
    /// A fragment was not accepted; remaining fragments of the AU were not sent.
    MediaSendAborted {
        outcome: MediaSendOutcome,
        fragments_sent: usize,
        fragments_total: usize,
    },
    /// The complete product handshake exceeded its local bound.
    HandshakeTimedOut { timeout_ms: u64 },
}

impl ProductSessionError {
    /// True only when an already-authenticated QUIC path timed out or was
    /// reset by its peer. Authentication, protocol, codec, framing, and local
    /// resource failures are deliberately terminal.
    pub fn is_retryable_connection_loss(&self) -> (retryable: bool)
        ensures
            retryable == (match *self {
                ProductSessionError::Quic(error) => error.reports_path_loss(),
                _ => false,
            }),
    {
        match self {
            ProductSessionError::Quic(error) => error.is_retryable_connection_loss(),
            _ => false,
        }
    }
}

// ---------------------------------------------------------------------------
// Candidate advertisements
// ---------------------------------------------------------------------------
/// Enforces the ordered, per-peer candidate advertisement sequence.
#[derive(Debug, Clone, Copy, PartialEq, Eq, Structural)]
pub struct CandidateExchangeTracker {
    pub exchange_id: Option<u64>,
    pub generation: u32,
}

impl Default for CandidateExchangeTracker {
    fn default() -> (tracker: Self)
        ensures
            tracker == (CandidateExchangeTracker { exchange_id: None, generation: 0 }),
    {
        CandidateExchangeTracker { exchange_id: None, generation: 0 }
    }
}

impl CandidateExchangeTracker {
    /// Why an advertisement does not continue the sequence.
    pub open spec fn fault(self, exchange: CandidateExchange) -> Option<
        CandidateExchangeViolation,
    > {
        match self.exchange_id {
            Some(expected) => if exchange.exchange_id != expected {
                Some(
                    CandidateExchangeViolation::ExchangeId {
                        expected,
                        actual: exchange.exchange_id,
                    },
                )
            } else if self.generation == u32::MAX {
                Some(CandidateExchangeViolation::GenerationExhausted)
            } else if exchange.generation != self.generation + 1 {
                Some(
                    CandidateExchangeViolation::Generation {
                        expected: (self.generation + 1) as u32,
                        actual: exchange.generation,
                    },
                )
            } else {
                None
            },
            None => if exchange.generation != 1 {
                Some(
                    CandidateExchangeViolation::Generation { expected: 1, actual: exchange.generation },
                )
            } else {
                None
            },
        }
    }

    /// The tracker after an advertisement that continues the sequence.
    pub open spec fn advanced(self, exchange: CandidateExchange) -> CandidateExchangeTracker {
        CandidateExchangeTracker {
            exchange_id: Some(exchange.exchange_id),
            generation: exchange.generation,
        }
    }

    /// Validates a candidate exchange and advances the tracker atomically.
    /// `encoded` is the wire codec's verdict on the exchange.
    pub fn accept(
        &mut self,
        exchange: &CandidateExchange,
        encoded: Result<(), ProtocolError>,
    ) -> (result: Result<(), CandidateExchangeViolation>)
        ensures
            match encoded {
                Err(error) => *final(self) == *old(self) && result == Err::<
                    (),
                    CandidateExchangeViolation,
                >(CandidateExchangeViolation::Malformed(error)),
                Ok(()) => match old(self).fault(*exchange) {
                    Some(violation) => *final(self) == *old(self) && result == Err::<
                        (),
                        CandidateExchangeViolation,
                    >(violation),
                    None => *final(self) == old(self).advanced(*exchange) && result is Ok,
                },
            },
    {
        match encoded {
            Err(error) => Err(CandidateExchangeViolation::Malformed(error)),
            Ok(()) => self.accept_validated(exchange),
        }
    }

    /// Advances the tracker with an exchange that the wire codec accepted.
    pub fn accept_validated(&mut self, exchange: &CandidateExchange) -> (result: Result<
        (),
        CandidateExchangeViolation,
    >)
        ensures
            match old(self).fault(*exchange) {
                Some(violation) => *final(self) == *old(self) && result == Err::<
                    (),
                    CandidateExchangeViolation,
                >(violation),
                None => *final(self) == old(self).advanced(*exchange) && result is Ok,
            },
    {
        match self.exchange_id {
            Some(expected) => {
                if exchange.exchange_id != expected {
                    return Err(
                        CandidateExchangeViolation::ExchangeId {
                            expected,
                            actual: exchange.exchange_id,
                        },
                    );
                }
                if self.generation == u32::MAX {
                    return Err(CandidateExchangeViolation::GenerationExhausted);
                }
                let wanted: u32 = self.generation + 1;
                if exchange.generation != wanted {
                    return Err(
                        CandidateExchangeViolation::Generation {
                            expected: wanted,
                            actual: exchange.generation,
                        },
                    );
                }
            },
            None => {
                if exchange.generation != 1 {
                    return Err(
                        CandidateExchangeViolation::Generation {
                            expected: 1,
                            actual: exchange.generation,
                        },
                    );
                }
            },
        }
        self.exchange_id = Some(exchange.exchange_id);
        self.generation = exchange.generation;
        Ok(())
    }
}

/// Accepted advertisements keep one identity and count up by exactly one, so
/// no advertisement is ever accepted twice.
pub proof fn law_advertisements_are_consecutive(
    tracker: CandidateExchangeTracker,
    exchange: CandidateExchange,
)
    requires
        tracker.fault(exchange) is None,
        tracker.exchange_id is None ==> tracker.generation == 0,
    ensures
        tracker.advanced(exchange).generation == tracker.generation + 1,
        tracker.exchange_id is Some ==> tracker.advanced(exchange).exchange_id
            == tracker.exchange_id,
        tracker.advanced(exchange).fault(exchange) is Some,
{
}

// ---------------------------------------------------------------------------
// ICE generations
// ---------------------------------------------------------------------------
/// Which of the two ICE signaling styles a session uses.
#[derive(Debug, Clone, Copy, PartialEq, Eq, Structural)]
pub enum IceSignalingMode {
    AdvertisementOnly,
    CredentialGenerations,
}

/// The ICE roles of both ends.
#[derive(Debug, Clone, Copy, PartialEq, Eq, Structural)]
pub struct IceSignalingRoles {
    pub local: IceCredentialRole,
    pub remote: IceCredentialRole,
}

/// Couples credentials and candidates into one authenticated, ordered update.
#[derive(Debug, Clone, Copy, PartialEq, Eq, Structural)]
pub struct IceGenerationTracker {
    pub exchange_id: Option<u64>,
    pub generation: u32,
    pub pending: Option<u32>,
    pub mode: Option<IceSignalingMode>,
    pub poisoned: bool,
}

impl Default for IceGenerationTracker {
    fn default() -> (tracker: Self)
        ensures
            tracker == (IceGenerationTracker {
                exchange_id: None,
                generation: 0,
                pending: None,
                mode: None,
                poisoned: false,
            }),
    {
        IceGenerationTracker {
            exchange_id: None,
            generation: 0,
            pending: None,
            mode: None,
            poisoned: false,
        }
    }
}

impl IceGenerationTracker {
    /// Why the tracker cannot be used in this mode.
    pub open spec fn mode_fault(self, requested: IceSignalingMode) -> Option<
        IceGenerationViolation,
    > {
        if self.poisoned {
            Some(IceGenerationViolation::Poisoned)
        } else if self.mode is Some && self.mode != Some(requested) {
            Some(IceGenerationViolation::ModeConflict)
        } else {
            None
        }
    }

    /// Why credentials cannot open the next generation.
    pub open spec fn begin_fault(
        self,
        credentials: IceCredentialExchange,
        session_id: u64,
    ) -> Option<IceGenerationViolation> {
        match self.mode_fault(IceSignalingMode::CredentialGenerations) {
            Some(violation) => Some(violation),
            None => if credentials.exchange_id != session_id {
                Some(
                    IceGenerationViolation::ExchangeId {
                        expected: session_id,
                        actual: credentials.exchange_id,
                    },
                )
            } else if self.generation == u32::MAX {
                Some(IceGenerationViolation::GenerationExhausted)
            } else if credentials.generation != self.generation + 1 {
                Some(
                    IceGenerationViolation::Generation {
                        expected: (self.generation + 1) as u32,
                        actual: credentials.generation,
                    },
                )
            } else if self.pending is Some {
                Some(IceGenerationViolation::Pending)
            } else {
                None
            },
        }
    }

    /// The tracker with a generation opened.
    pub open spec fn begun(
        self,
        credentials: IceCredentialExchange,
        session_id: u64,
    ) -> IceGenerationTracker {
        IceGenerationTracker {
            mode: Some(IceSignalingMode::CredentialGenerations),
            exchange_id: Some(session_id),
            pending: Some(credentials.generation),
            ..self
        }
    }

    /// Why candidates cannot close the open generation.
    pub open spec fn finish_fault(self, candidates: CandidateExchange) -> Option<
        IceGenerationViolation,
    > {
        let identity = match self.exchange_id {
            Some(id) => id,
            None => 0,
        };
        match self.pending {
            None => Some(IceGenerationViolation::CandidateBeforeCredentials),
            Some(generation) => if candidates.exchange_id != identity {
                Some(
                    IceGenerationViolation::ExchangeId {
                        expected: identity,
                        actual: candidates.exchange_id,
                    },
                )
            } else if candidates.generation != generation {
                Some(
                    IceGenerationViolation::Generation {
                        expected: generation,
                        actual: candidates.generation,
                    },
                )
            } else {
                None
            },
        }
    }

    /// The tracker with the open generation closed.
    pub open spec fn finished(self) -> IceGenerationTracker {
        IceGenerationTracker { generation: self.pending->Some_0, pending: None, ..self }
    }

    /// Accepts the mode unless the other one is in use or a write failed.
    pub fn ensure_mode(&self, requested: IceSignalingMode) -> (result: Result<
        (),
        IceGenerationViolation,
    >)
        ensures
            result == (match self.mode_fault(requested) {
                Some(violation) => Err::<(), IceGenerationViolation>(violation),
                None => Ok::<(), IceGenerationViolation>(()),
            }),
    {
        if self.poisoned {
            return Err(IceGenerationViolation::Poisoned);
        }
        match self.mode {
            Some(current) => {
                if current != requested {
                    return Err(IceGenerationViolation::ModeConflict);
                }
            },
            None => {},
        }
        Ok(())
    }

    /// The tracker after a candidate advertisement without credentials.
    pub fn advertisement(&self) -> (result: Result<Self, IceGenerationViolation>)
        ensures
            result == (match self.mode_fault(IceSignalingMode::AdvertisementOnly) {
                Some(violation) => Err::<IceGenerationTracker, IceGenerationViolation>(violation),
                None => Ok::<IceGenerationTracker, IceGenerationViolation>(
                    IceGenerationTracker {
                        mode: Some(IceSignalingMode::AdvertisementOnly),
                        ..*self
                    },
                ),
            }),
    {
        match self.ensure_mode(IceSignalingMode::AdvertisementOnly) {
            Err(violation) => Err(violation),
            Ok(()) => Ok(
                IceGenerationTracker { mode: Some(IceSignalingMode::AdvertisementOnly), ..*self },
            ),
        }
    }

    /// Opens the next generation with credentials.
    pub fn begin(&self, credentials: &IceCredentialExchange, session_id: u64) -> (result: Result<
        Self,
        IceGenerationViolation,
    >)
        ensures
            result == (match self.begin_fault(*credentials, session_id) {
                Some(violation) => Err::<IceGenerationTracker, IceGenerationViolation>(violation),
                None => Ok::<IceGenerationTracker, IceGenerationViolation>(
                    self.begun(*credentials, session_id),
                ),
            }),
    {
        match self.ensure_mode(IceSignalingMode::CredentialGenerations) {
            Err(violation) => return Err(violation),
            Ok(()) => {},
        }
        if credentials.exchange_id != session_id {
            return Err(
                IceGenerationViolation::ExchangeId {
                    expected: session_id,
                    actual: credentials.exchange_id,
                },
            );
        }
        if self.generation == u32::MAX {
            return Err(IceGenerationViolation::GenerationExhausted);
        }
        let wanted: u32 = self.generation + 1;
        if credentials.generation != wanted {
            return Err(
                IceGenerationViolation::Generation { expected: wanted, actual: credentials.generation },
            );
        }
        if self.pending.is_some() {
            return Err(IceGenerationViolation::Pending);
        }
        Ok(
            IceGenerationTracker {
                mode: Some(IceSignalingMode::CredentialGenerations),
                exchange_id: Some(session_id),
                pending: Some(credentials.generation),
                ..*self
            },
        )
    }

    /// Closes the open generation with candidates.
    pub fn finish(self, candidates: &CandidateExchange) -> (result: Result<
        Self,
        IceGenerationViolation,
    >)
        ensures
            result == (match self.finish_fault(*candidates) {
                Some(violation) => Err::<IceGenerationTracker, IceGenerationViolation>(violation),
                None => Ok::<IceGenerationTracker, IceGenerationViolation>(self.finished()),
            }),
    {
        let generation: u32 = match self.pending {
            Some(generation) => generation,
            None => return Err(IceGenerationViolation::CandidateBeforeCredentials),
        };
        let identity: u64 = match self.exchange_id {
            Some(id) => id,
            None => 0,
        };
        if candidates.exchange_id != identity {
            return Err(
                IceGenerationViolation::ExchangeId {
                    expected: identity,
                    actual: candidates.exchange_id,
                },
            );
        }
        if candidates.generation != generation {
            return Err(
                IceGenerationViolation::Generation {
                    expected: generation,
                    actual: candidates.generation,
                },
            );
        }
        Ok(IceGenerationTracker { generation, pending: None, ..self })
    }

    /// Refuses all further use after an interrupted write.
    pub fn poison(&mut self)
        ensures
            *final(self) == (IceGenerationTracker {
                poisoned: true,
                pending: None,
                ..*old(self)
            }),
    {
        self.poisoned = true;
        self.pending = None;
    }
}

/// A complete generation counts up by one, and a credential generation and an
/// advertisement exclude each other for the rest of the session.
pub proof fn law_signaling_modes_exclude_each_other(
    tracker: IceGenerationTracker,
    credentials: IceCredentialExchange,
    candidates: CandidateExchange,
    session_id: u64,
)
    requires
        tracker.begin_fault(credentials, session_id) is None,
        tracker.begun(credentials, session_id).finish_fault(candidates) is None,
    ensures
        ({
            let next = tracker.begun(credentials, session_id).finished();
            &&& next.generation == tracker.generation + 1
            &&& next.pending is None
            &&& next.mode_fault(IceSignalingMode::AdvertisementOnly) == Some(
                IceGenerationViolation::ModeConflict,
            )
            &&& next.mode_fault(IceSignalingMode::CredentialGenerations) is None
            &&& next.begin_fault(credentials, session_id) is Some
        }),
        forall|other: IceGenerationTracker|
            (#[trigger] other.mode_fault(IceSignalingMode::AdvertisementOnly)) is None ==> (
            IceGenerationTracker {
                mode: Some(IceSignalingMode::AdvertisementOnly),
                ..other
            }).begin_fault(credentials, session_id) == Some(IceGenerationViolation::ModeConflict),
{
}

/// After an interrupted write nothing is accepted any more.
pub proof fn law_poisoned_tracker_accepts_nothing(
    tracker: IceGenerationTracker,
    credentials: IceCredentialExchange,
    candidates: CandidateExchange,
    session_id: u64,
)
    requires
        tracker.poisoned,
        tracker.pending is None,
    ensures
        tracker.mode_fault(IceSignalingMode::AdvertisementOnly) == Some(
            IceGenerationViolation::Poisoned,
        ),
        tracker.begin_fault(credentials, session_id) == Some(IceGenerationViolation::Poisoned),
        tracker.finish_fault(candidates) is Some,
{
}

/// Decides whether authenticated ICE signaling starts, given the wire codec's
/// verdicts and whether both the offer and the selection negotiated it. Roles
/// that are already assigned stay as they are.
pub fn enable_authenticated_ice_signaling(
    roles: Option<IceSignalingRoles>,
    assignment: IceSignalingRoles,
    offered: Result<bool, ProtocolError>,
    selected: Result<bool, ProtocolError>,
) -> (result: Result<IceSignalingRoles, ProductSessionError>)
    ensures
        result == (match (offered, selected) {
            (Err(error), _) => Err::<IceSignalingRoles, ProductSessionError>(
                ProductSessionError::Protocol(error),
            ),
            (Ok(_), Err(error)) => Err::<IceSignalingRoles, ProductSessionError>(
                ProductSessionError::Protocol(error),
            ),
            (Ok(offers), Ok(selects)) => if offers && selects {
                Ok::<IceSignalingRoles, ProductSessionError>(
                    match roles {
                        Some(roles) => roles,
                        None => assignment,
                    },
                )
            } else {
                Err::<IceSignalingRoles, ProductSessionError>(
                    ProductSessionError::IceGeneration(
                        IceGenerationViolation::IceCapabilityNotNegotiated,
                    ),
                )
            },
        }),
{
    let offers: bool = match offered {
        Ok(offers) => offers,
        Err(error) => return Err(ProductSessionError::Protocol(error)),
    };
    let selects: bool = match selected {
        Ok(selects) => selects,
        Err(error) => return Err(ProductSessionError::Protocol(error)),
    };
    if !offers || !selects {
        return Err(
            ProductSessionError::IceGeneration(IceGenerationViolation::IceCapabilityNotNegotiated),
        );
    }
    match roles {
        Some(roles) => Ok(roles),
        None => Ok(assignment),
    }
}

/// The role that a sender must claim in its credentials.
pub open spec fn send_role_fault(
    roles: Option<IceSignalingRoles>,
    credentials: IceCredentialExchange,
) -> Option<IceGenerationViolation> {
    match roles {
        None => Some(IceGenerationViolation::IceSignalingNotNegotiated),
        Some(roles) => if credentials.role != roles.local {
            Some(
                IceGenerationViolation::RoleMismatch {
                    expected: roles.local,
                    actual: credentials.role,
                },
            )
        } else {
            None
        },
    }
}

/// Decides whether a credentials/candidates pair may be sent, and the tracker
/// that holds once both records are written. `credentials_encoded` and
/// `candidates_encoded` are the wire codec's verdicts.
pub fn send_ice_generation(
    tracker: &IceGenerationTracker,
    roles: Option<IceSignalingRoles>,
    session_id: u64,
    credentials: IceCredentialExchange,
    candidates: CandidateExchange,
    credentials_encoded: Result<(), ProtocolError>,
    candidates_encoded: Result<(), ProtocolError>,
) -> (result: Result<IceGenerationTracker, ProductSessionError>)
    ensures
        result == (match send_role_fault(roles, credentials) {
            Some(violation) => Err::<IceGenerationTracker, ProductSessionError>(
                ProductSessionError::IceGeneration(violation),
            ),
            None => match (credentials_encoded, candidates_encoded) {
                (Err(error), _) => Err::<IceGenerationTracker, ProductSessionError>(
                    ProductSessionError::IceGeneration(IceGenerationViolation::Malformed(error)),
                ),
                (Ok(()), Err(error)) => Err::<IceGenerationTracker, ProductSessionError>(
                    ProductSessionError::Protocol(error),
                ),
                (Ok(()), Ok(())) => match tracker.begin_fault(credentials, session_id) {
                    Some(violation) => Err::<IceGenerationTracker, ProductSessionError>(
                        ProductSessionError::IceGeneration(violation),
                    ),
                    None => {
                        let open = tracker.begun(credentials, session_id);
                        match open.finish_fault(candidates) {
                            Some(violation) => Err::<IceGenerationTracker, ProductSessionError>(
                                ProductSessionError::IceGeneration(violation),
                            ),
                            None => Ok::<IceGenerationTracker, ProductSessionError>(
                                open.finished(),
                            ),
                        }
                    },
                },
            },
        }),
{
    let roles: IceSignalingRoles = match roles {
        Some(roles) => roles,
        None => return Err(
            ProductSessionError::IceGeneration(IceGenerationViolation::IceSignalingNotNegotiated),
        ),
    };
    if credentials.role != roles.local {
        return Err(
            ProductSessionError::IceGeneration(
                IceGenerationViolation::RoleMismatch {
                    expected: roles.local,
                    actual: credentials.role,
                },
            ),
        );
    }
    match credentials_encoded {
        Err(error) => return Err(
            ProductSessionError::IceGeneration(IceGenerationViolation::Malformed(error)),
        ),
        Ok(()) => {},
    }
    match candidates_encoded {
        Err(error) => return Err(ProductSessionError::Protocol(error)),
        Ok(()) => {},
    }
    match tracker.begin(&credentials, session_id) {
        Err(violation) => Err(ProductSessionError::IceGeneration(violation)),
        Ok(open) => match open.finish(&candidates) {
            Err(violation) => Err(ProductSessionError::IceGeneration(violation)),
            Ok(done) => Ok(done),
        },
    }
}

/// Decides whether a candidate advertisement may be sent, and the two trackers
/// that hold once it is written.
pub fn send_candidate_exchange(
    mode_tracker: &IceGenerationTracker,
    candidate_tracker: &CandidateExchangeTracker,
    session_id: u64,
    exchange: CandidateExchange,
    encoded: Result<(), ProtocolError>,
) -> (result: Result<(IceGenerationTracker, CandidateExchangeTracker), ProductSessionError>)
    ensures
        match encoded {
            Err(error) => result is Err && result->Err_0 == ProductSessionError::Protocol(error),
            Ok(()) => if exchange.exchange_id != session_id {
                result is Err && result->Err_0 == ProductSessionError::CandidateExchange(
                    CandidateExchangeViolation::ExchangeId {
                        expected: session_id,
                        actual: exchange.exchange_id,
                    },
                )
            } else {
                match mode_tracker.mode_fault(IceSignalingMode::AdvertisementOnly) {
                    Some(violation) => result is Err && result->Err_0
                        == ProductSessionError::IceGeneration(violation),
                    None => match candidate_tracker.fault(exchange) {
                        Some(violation) => result is Err && result->Err_0
                            == ProductSessionError::CandidateExchange(violation),
                        None => result is Ok && result->Ok_0.0 == (IceGenerationTracker {
                            mode: Some(IceSignalingMode::AdvertisementOnly),
                            ..*mode_tracker
                        }) && result->Ok_0.1 == candidate_tracker.advanced(exchange),
                    },
                }
            },
        },
{
    match encoded {
        Err(error) => return Err(ProductSessionError::Protocol(error)),
        Ok(()) => {},
    }
    if exchange.exchange_id != session_id {
        return Err(
            ProductSessionError::CandidateExchange(
                CandidateExchangeViolation::ExchangeId {
                    expected: session_id,
                    actual: exchange.exchange_id,
                },
            ),
        );
    }
    let next_mode: IceGenerationTracker = match mode_tracker.advertisement() {
        Ok(next) => next,
        Err(violation) => return Err(ProductSessionError::IceGeneration(violation)),
    };
    let mut next_candidate: CandidateExchangeTracker = *candidate_tracker;
    match next_candidate.accept_validated(&exchange) {
        Err(violation) => Err(ProductSessionError::CandidateExchange(violation)),
        Ok(()) => Ok((next_mode, next_candidate)),
    }
}

/// A received control record that belongs to the session.
#[derive(Debug)]
pub struct PrivateControl<T> {
    pub kind: ControlKind,
    pub body: Result<T, ProtocolError>,
}

fn peer(violation: ProductProtocolViolation) -> (error: ProductSessionError)
    ensures
        error == ProductSessionError::PeerProtocol(violation),
{
    ProductSessionError::PeerProtocol(violation)
}

/// Why the first half of a generation is refused.
pub open spec fn credentials_fault(
    tracker: IceGenerationTracker,
    roles: IceSignalingRoles,
    session_id: u64,
    message: PrivateControl<IceCredentialExchange>,
) -> Option<ProductProtocolViolation> {
    if message.kind != ControlKind::IceCredentials {
        Some(ProductProtocolViolation::UnexpectedCredentialsKind { actual: message.kind })
    } else {
        match message.body {
            Err(error) => Some(
                ProductProtocolViolation::IceGeneration(IceGenerationViolation::Malformed(error)),
            ),
            Ok(credentials) => if credentials.exchange_id != session_id {
                Some(
                    ProductProtocolViolation::IceGeneration(
                        IceGenerationViolation::ExchangeId {
                            expected: session_id,
                            actual: credentials.exchange_id,
                        },
                    ),
                )
            } else if credentials.role != roles.remote {
                Some(
                    ProductProtocolViolation::IceGeneration(
                        IceGenerationViolation::RoleMismatch {
                            expected: roles.remote,
                            actual: credentials.role,
                        },
                    ),
                )
            } else {
                match tracker.begin_fault(credentials, session_id) {
                    Some(violation) => Some(ProductProtocolViolation::IceGeneration(violation)),
                    None => None,
                }
            },
        }
    }
}

/// Whether a receiver may wait for a generation at all.
pub fn expect_ice_generation(
    tracker: &IceGenerationTracker,
    roles: Option<IceSignalingRoles>,
) -> (result: Result<IceSignalingRoles, ProductSessionError>)
    ensures
        result == (match roles {
            None => Err::<IceSignalingRoles, ProductSessionError>(
                ProductSessionError::IceGeneration(
                    IceGenerationViolation::IceSignalingNotNegotiated,
                ),
            ),
            Some(roles) => match tracker.mode_fault(IceSignalingMode::CredentialGenerations) {
                Some(violation) => Err::<IceSignalingRoles, ProductSessionError>(
                    ProductSessionError::IceGeneration(violation),
                ),
                None => Ok::<IceSignalingRoles, ProductSessionError>(roles),
            },
        }),
{
    let roles: IceSignalingRoles = match roles {
        Some(roles) => roles,
        None => return Err(
            ProductSessionError::IceGeneration(IceGenerationViolation::IceSignalingNotNegotiated),
        ),
    };
    match tracker.ensure_mode(IceSignalingMode::CredentialGenerations) {
        Err(violation) => Err(ProductSessionError::IceGeneration(violation)),
        Ok(()) => Ok(roles),
    }
}

/// Takes the first half of a generation. The tracker keeps the half before the
/// second record is awaited, so an interruption cannot fall back to the other
/// mode.
pub fn receive_ice_credentials(
    tracker: &mut IceGenerationTracker,
    roles: IceSignalingRoles,
    session_id: u64,
    message: PrivateControl<IceCredentialExchange>,
) -> (result: Result<IceCredentialExchange, ProductSessionError>)
    ensures
        match credentials_fault(*old(tracker), roles, session_id, message) {
            Some(violation) => result is Err && result->Err_0
                == ProductSessionError::PeerProtocol(violation) && *final(tracker) == *old(
                tracker,
            ),
            None => result is Ok && message.body is Ok && result->Ok_0 == message.body->Ok_0
                && *final(tracker) == old(tracker).begun(result->Ok_0, session_id),
        },
{
    if message.kind != ControlKind::IceCredentials {
        return Err(
            peer(ProductProtocolViolation::UnexpectedCredentialsKind { actual: message.kind }),
        );
    }
    let credentials: IceCredentialExchange = match message.body {
        Ok(credentials) => credentials,
        Err(error) => return Err(
            peer(
                ProductProtocolViolation::IceGeneration(IceGenerationViolation::Malformed(error)),
            ),
        ),
    };
    if credentials.exchange_id != session_id {
        return Err(
            peer(
                ProductProtocolViolation::IceGeneration(
                    IceGenerationViolation::ExchangeId {
                        expected: session_id,
                        actual: credentials.exchange_id,
                    },
                ),
            ),
        );
    }
    if credentials.role != roles.remote {
        return Err(
            peer(
                ProductProtocolViolation::IceGeneration(
                    IceGenerationViolation::RoleMismatch {
                        expected: roles.remote,
                        actual: credentials.role,
                    },
                ),
            ),
        );
    }
    match tracker.begin(&credentials, session_id) {
        Err(violation) => Err(peer(ProductProtocolViolation::IceGeneration(violation))),
        Ok(open) => {
            *tracker = open;
            Ok(credentials)
        },
    }
}

/// Takes the second half of a generation.
pub fn receive_ice_candidates(
    tracker: &mut IceGenerationTracker,
    message: PrivateControl<CandidateExchange>,
) -> (result: Result<CandidateExchange, ProductSessionError>)
    ensures
        if message.kind != ControlKind::IceCandidate {
            result is Err && result->Err_0 == ProductSessionError::PeerProtocol(
                ProductProtocolViolation::UnexpectedCandidateKind { actual: message.kind },
            ) && *final(tracker) == *old(tracker)
        } else {
            match message.body {
                Err(error) => result is Err && result->Err_0 == ProductSessionError::PeerProtocol(
                    ProductProtocolViolation::CandidateExchange(
                        CandidateExchangeViolation::Malformed(error),
                    ),
                ) && *final(tracker) == *old(tracker),
                Ok(candidates) => match old(tracker).finish_fault(candidates) {
                    Some(violation) => result is Err && result->Err_0
                        == ProductSessionError::PeerProtocol(
                        ProductProtocolViolation::IceGeneration(violation),
                    ) && *final(tracker) == *old(tracker),
                    None => result is Ok && result->Ok_0 == candidates && *final(tracker) == old(
                        tracker,
                    ).finished(),
                },
            }
        },
{
    if message.kind != ControlKind::IceCandidate {
        return Err(
            peer(ProductProtocolViolation::UnexpectedCandidateKind { actual: message.kind }),
        );
    }
    let candidates: CandidateExchange = match message.body {
        Ok(candidates) => candidates,
        Err(error) => return Err(
            peer(
                ProductProtocolViolation::CandidateExchange(
                    CandidateExchangeViolation::Malformed(error),
                ),
            ),
        ),
    };
    let current: IceGenerationTracker = *tracker;
    match current.finish(&candidates) {
        Err(violation) => Err(peer(ProductProtocolViolation::IceGeneration(violation))),
        Ok(done) => {
            *tracker = done;
            Ok(candidates)
        },
    }
}

/// Whether a receiver may wait for an advertisement at all.
pub fn expect_candidate_exchange(tracker: &IceGenerationTracker) -> (result: Result<
    IceGenerationTracker,
    ProductSessionError,
>)
    ensures
        result == (match tracker.mode_fault(IceSignalingMode::AdvertisementOnly) {
            Some(violation) => Err::<IceGenerationTracker, ProductSessionError>(
                ProductSessionError::IceGeneration(violation),
            ),
            None => Ok::<IceGenerationTracker, ProductSessionError>(
                IceGenerationTracker {
                    mode: Some(IceSignalingMode::AdvertisementOnly),
                    ..*tracker
                },
            ),
        }),
{
    match tracker.advertisement() {
        Ok(next) => Ok(next),
        Err(violation) => Err(ProductSessionError::IceGeneration(violation)),
    }
}

/// Why a received advertisement is refused.
pub open spec fn advertisement_fault(
    tracker: CandidateExchangeTracker,
    session_id: u64,
    message: PrivateControl<CandidateExchange>,
) -> Option<ProductProtocolViolation> {
    if message.kind != ControlKind::IceCandidate {
        Some(ProductProtocolViolation::UnexpectedCandidateKind { actual: message.kind })
    } else {
        match message.body {
            Err(error) => Some(
                ProductProtocolViolation::CandidateExchange(
                    CandidateExchangeViolation::Malformed(error),
                ),
            ),
            Ok(exchange) => if exchange.exchange_id != session_id {
                Some(
                    ProductProtocolViolation::CandidateExchange(
                        CandidateExchangeViolation::ExchangeId {
                            expected: session_id,
                            actual: exchange.exchange_id,
                        },
                    ),
                )
            } else {
                match tracker.fault(exchange) {
                    Some(violation) => Some(
                        ProductProtocolViolation::CandidateExchange(violation),
                    ),
                    None => None,
                }
            },
        }
    }
}

/// Takes a received advertisement and enforces its per-connection exchange
/// identity and strictly consecutive generation.
pub fn receive_candidate_exchange(
    tracker: &mut CandidateExchangeTracker,
    session_id: u64,
    message: PrivateControl<CandidateExchange>,
) -> (result: Result<CandidateExchange, ProductSessionError>)
    ensures
        match advertisement_fault(*old(tracker), session_id, message) {
            Some(violation) => result is Err && result->Err_0
                == ProductSessionError::PeerProtocol(violation) && *final(tracker) == *old(
                tracker,
            ),
            None => result is Ok && message.body is Ok && result->Ok_0 == message.body->Ok_0
                && *final(tracker) == old(tracker).advanced(result->Ok_0),
        },
{
    if message.kind != ControlKind::IceCandidate {
        return Err(
            peer(ProductProtocolViolation::UnexpectedCandidateKind { actual: message.kind }),
        );
    }
    let exchange: CandidateExchange = match message.body {
        Ok(exchange) => exchange,
        Err(error) => return Err(
            peer(
                ProductProtocolViolation::CandidateExchange(
                    CandidateExchangeViolation::Malformed(error),
                ),
            ),
        ),
    };
    if exchange.exchange_id != session_id {
        return Err(
            peer(
                ProductProtocolViolation::CandidateExchange(
                    CandidateExchangeViolation::ExchangeId {
                        expected: session_id,
                        actual: exchange.exchange_id,
                    },
                ),
            ),
        );
    }
    match tracker.accept_validated(&exchange) {
        Err(violation) => Err(peer(ProductProtocolViolation::CandidateExchange(violation))),
        Ok(()) => Ok(exchange),
    }
}

/// What a receiver of the peer's control lane keeps between records.
#[derive(Debug, PartialEq, Eq, Structural)]
pub struct ControlReceiver {
    pub session_id: u64,
    pub candidate_exchange: CandidateExchangeTracker,
    pub ice_generation: IceGenerationTracker,
}

impl ControlReceiver {
    /// A receiver before any record.
    pub fn new(session_id: u64) -> (receiver: Self)
        ensures
            receiver.session_id == session_id,
            receiver.candidate_exchange == (CandidateExchangeTracker {
                exchange_id: None,
                generation: 0,
            }),
            receiver.ice_generation == (IceGenerationTracker {
                exchange_id: None,
                generation: 0,
                pending: None,
                mode: None,
                poisoned: false,
            }),
    {
        ControlReceiver {
            session_id,
            candidate_exchange: CandidateExchangeTracker::default(),
            ice_generation: IceGenerationTracker::default(),
        }
    }

    /// Takes the next candidate advertisement. Both trackers move together or
    /// not at all. A record that is refused closes the connection.
    pub fn next_candidate_exchange(&mut self, message: PrivateControl<CandidateExchange>) -> (
    result: Result<CandidateExchange, ProductSessionError>)
        ensures
            match old(self).ice_generation.mode_fault(IceSignalingMode::AdvertisementOnly) {
                Some(violation) => *final(self) == *old(self) && result == Err::<
                    CandidateExchange,
                    ProductSessionError,
                >(ProductSessionError::IceGeneration(violation)),
                None => match advertisement_fault(
                    old(self).candidate_exchange,
                    old(self).session_id,
                    message,
                ) {
                    Some(violation) => *final(self) == *old(self) && result == Err::<
                        CandidateExchange,
                        ProductSessionError,
                    >(ProductSessionError::PeerProtocol(violation)),
                    None => {
                        &&& message.body is Ok
                        &&& result == Ok::<CandidateExchange, ProductSessionError>(
                            message.body->Ok_0,
                        )
                        &&& *final(self) == (ControlReceiver {
                            session_id: old(self).session_id,
                            candidate_exchange: old(self).candidate_exchange.advanced(
                                message.body->Ok_0,
                            ),
                            ice_generation: IceGenerationTracker {
                                mode: Some(IceSignalingMode::AdvertisementOnly),
                                ..old(self).ice_generation
                            },
                        })
                    },
                },
            },
    {
        let next_mode: IceGenerationTracker = match expect_candidate_exchange(
            &self.ice_generation,
        ) {
            Ok(next_mode) => next_mode,
            Err(error) => return Err(error),
        };
        let session_id: u64 = self.session_id;
        match receive_candidate_exchange(&mut self.candidate_exchange, session_id, message) {
            Err(error) => Err(error),
            Ok(exchange) => {
                self.ice_generation = next_mode;
                Ok(exchange)
            },
        }
    }
}

// ---------------------------------------------------------------------------
// Session stamps and the product handshake
// ---------------------------------------------------------------------------
/// The stamp of a first session with this identity.
pub fn active_stamp(session_id: u64) -> (stamp: SessionStamp)
    requires
        session_id != 0,
    ensures
        stamp == (SessionStamp {
            session_id,
            generation: 1,
            authorization_epoch: 1,
            display_epoch: 1,
            codec_epoch: 1,
            route_epoch: 1,
        }),
{
    SessionStamp {
        session_id,
        generation: 1,
        authorization_epoch: 1,
        display_epoch: 1,
        codec_epoch: 1,
        route_epoch: 1,
    }
}

/// The same session at another route epoch.
pub fn stamp_at_route_epoch(stamp: SessionStamp, route_epoch: u64) -> (moved: SessionStamp)
    ensures
        moved == (SessionStamp { route_epoch, ..stamp }),
{
    SessionStamp { route_epoch, ..stamp }
}

/// Why a stamp cannot be active, given the wire codec's verdict on it.
pub open spec fn stamp_fault(stamp: SessionStamp, pending: Result<(), ProtocolError>) -> Option<
    ProtocolError,
> {
    match pending {
        Err(error) => Some(error),
        Ok(()) => if stamp.authorization_epoch == 0 || stamp.display_epoch == 0
            || stamp.codec_epoch == 0 {
            Some(ProtocolError::InvalidSessionStamp)
        } else {
            None
        },
    }
}

/// Accepts a stamp whose lifecycle epochs have all started.
pub fn validate_active_product_stamp(stamp: SessionStamp, pending: Result<(), ProtocolError>) -> (
result: Result<(), ProductSessionError>)
    ensures
        result == (match stamp_fault(stamp, pending) {
            Some(error) => Err::<(), ProductSessionError>(ProductSessionError::Protocol(error)),
            None => Ok::<(), ProductSessionError>(()),
        }),
{
    match pending {
        Err(error) => return Err(ProductSessionError::Protocol(error)),
        Ok(()) => {},
    }
    if stamp.authorization_epoch == 0 || stamp.display_epoch == 0 || stamp.codec_epoch == 0 {
        return Err(ProductSessionError::Protocol(ProtocolError::InvalidSessionStamp));
    }
    Ok(())
}

/// The record publishes this stamp.
pub open spec fn is_publication(
    record: OutgoingControl<HandshakeCompletedMessage>,
    stamp: SessionStamp,
) -> bool {
    &&& record.kind == ControlKind::HandshakeCompleted
    &&& record.session_id == stamp.session_id
    &&& record.body.session_id == stamp.session_id
    &&& record.body.authorization_epoch == stamp.authorization_epoch
    &&& is_zero_nonce(record.body.server_nonce)
}

/// The record with which a host completes the product handshake.
pub fn handshake_completed(stamp: SessionStamp) -> (record: OutgoingControl<
    HandshakeCompletedMessage,
>)
    ensures
        is_publication(record, stamp),
{
    OutgoingControl {
        kind: ControlKind::HandshakeCompleted,
        session_id: stamp.session_id,
        body: HandshakeCompletedMessage {
            session_id: stamp.session_id,
            authorization_epoch: stamp.authorization_epoch,
            server_nonce: [0u8;16],
        },
    }
}

/// Sixteen zero bytes.
pub open spec fn is_zero_nonce(nonce: [u8; 16]) -> bool {
    forall|i: int| 0 <= i < 16 ==> #[trigger] nonce@[i] == 0
}

pub(crate) fn nonce_is_zero(nonce: &[u8; 16]) -> (result: bool)
    ensures
        result == is_zero_nonce(*nonce),
{
    let mut index: usize = 0;
    while index < 16
        invariant
            index <= 16,
            forall|i: int| 0 <= i < index ==> #[trigger] nonce@[i] == 0,
        decreases 16 - index,
    {
        if nonce[index] != 0 {
            return false;
        }
        index += 1;
    }
    true
}

/// Why the host's first control record is refused.
pub open spec fn handshake_fault(
    stamp: SessionStamp,
    pending: Result<(), ProtocolError>,
    control: Result<ReceivedControl<HandshakeCompletedMessage>, ProtocolError>,
) -> Option<ProductSessionError> {
    if stamp_fault(stamp, pending) is Some {
        Some(
            ProductSessionError::PeerProtocol(
                ProductProtocolViolation::InvalidHandshakeStamp(stamp),
            ),
        )
    } else {
        match control {
            Err(error) => Some(ProductSessionError::Protocol(error)),
            Ok(control) => if control.kind != ControlKind::HandshakeCompleted {
                Some(
                    ProductSessionError::PeerProtocol(
                        ProductProtocolViolation::UnexpectedHandshakeKind(control.kind),
                    ),
                )
            } else if control.session_id != stamp.session_id {
                Some(
                    ProductSessionError::PeerProtocol(
                        ProductProtocolViolation::ControlSessionMismatch {
                            expected: stamp.session_id,
                            actual: control.session_id,
                        },
                    ),
                )
            } else {
                match control.body {
                    Err(error) => Some(ProductSessionError::Protocol(error)),
                    Ok(completed) => if completed.session_id != stamp.session_id {
                        Some(
                            ProductSessionError::PeerProtocol(
                                ProductProtocolViolation::HandshakeSessionMismatch {
                                    expected: stamp.session_id,
                                    actual: completed.session_id,
                                },
                            ),
                        )
                    } else if completed.authorization_epoch != stamp.authorization_epoch {
                        Some(
                            ProductSessionError::PeerProtocol(
                                ProductProtocolViolation::HandshakeAuthorizationMismatch {
                                    expected: stamp.authorization_epoch,
                                    actual: completed.authorization_epoch,
                                },
                            ),
                        )
                    } else if !is_zero_nonce(completed.server_nonce) {
                        Some(
                            ProductSessionError::PeerProtocol(
                                ProductProtocolViolation::HandshakeNonceMismatch,
                            ),
                        )
                    } else {
                        None
                    },
                }
            },
        }
    }
}

/// Strictly validates the host's first reliable control record.
pub fn validate_handshake_completed(
    stamp: SessionStamp,
    pending: Result<(), ProtocolError>,
    control: Result<ReceivedControl<HandshakeCompletedMessage>, ProtocolError>,
) -> (result: Result<SessionStamp, ProductSessionError>)
    ensures
        result == (match handshake_fault(stamp, pending, control) {
            Some(error) => Err::<SessionStamp, ProductSessionError>(error),
            None => Ok::<SessionStamp, ProductSessionError>(stamp),
        }),
{
    match validate_active_product_stamp(stamp, pending) {
        Err(_) => return Err(peer(ProductProtocolViolation::InvalidHandshakeStamp(stamp))),
        Ok(()) => {},
    }
    let control = match control {
        Ok(control) => control,
        Err(error) => return Err(ProductSessionError::Protocol(error)),
    };
    if control.kind != ControlKind::HandshakeCompleted {
        return Err(peer(ProductProtocolViolation::UnexpectedHandshakeKind(control.kind)));
    }
    if control.session_id != stamp.session_id {
        return Err(
            peer(
                ProductProtocolViolation::ControlSessionMismatch {
                    expected: stamp.session_id,
                    actual: control.session_id,
                },
            ),
        );
    }
    let completed: HandshakeCompletedMessage = match control.body {
        Ok(completed) => completed,
        Err(error) => return Err(ProductSessionError::Protocol(error)),
    };
    if completed.session_id != stamp.session_id {
        return Err(
            peer(
                ProductProtocolViolation::HandshakeSessionMismatch {
                    expected: stamp.session_id,
                    actual: completed.session_id,
                },
            ),
        );
    }
    if completed.authorization_epoch != stamp.authorization_epoch {
        return Err(
            peer(
                ProductProtocolViolation::HandshakeAuthorizationMismatch {
                    expected: stamp.authorization_epoch,
                    actual: completed.authorization_epoch,
                },
            ),
        );
    }
    if !nonce_is_zero(&completed.server_nonce) {
        return Err(peer(ProductProtocolViolation::HandshakeNonceMismatch));
    }
    Ok(stamp)
}

/// A fresh identity with every lifecycle epoch advanced.
pub open spec fn succeeds(previous: SessionStamp, stamp: SessionStamp) -> bool {
    &&& stamp.session_id != previous.session_id
    &&& stamp.generation > previous.generation
    &&& stamp.authorization_epoch > previous.authorization_epoch
    &&& stamp.display_epoch > previous.display_epoch
    &&& stamp.codec_epoch > previous.codec_epoch
}

/// Why a client refuses to activate a session.
pub open spec fn activation_fault(
    lane: StreamKind,
    stamp: SessionStamp,
    pending: Result<(), ProtocolError>,
    control: Result<ReceivedControl<HandshakeCompletedMessage>, ProtocolError>,
    previous: Option<SessionStamp>,
) -> Option<ProductSessionError> {
    if lane != StreamKind::Control {
        Some(
            ProductSessionError::PeerProtocol(
                ProductProtocolViolation::UnexpectedLane {
                    expected: StreamKind::Control,
                    actual: lane,
                },
            ),
        )
    } else if handshake_fault(stamp, pending, control) is Some {
        handshake_fault(stamp, pending, control)
    } else {
        match previous {
            Some(previous) => if succeeds(previous, stamp) {
                None
            } else {
                Some(
                    ProductSessionError::PeerProtocol(
                        ProductProtocolViolation::NonMonotonicSuccessor {
                            previous,
                            actual: stamp,
                        },
                    ),
                )
            },
            None => None,
        }
    }
}

/// Decides whether a client activates the session that the host's first record
/// announces. A replacement for `previous` needs a fresh session identity and
/// must advance every lifecycle epoch. On an error the connection is closed.
pub fn activate_client(
    lane: StreamKind,
    stamp: SessionStamp,
    pending: Result<(), ProtocolError>,
    control: Result<ReceivedControl<HandshakeCompletedMessage>, ProtocolError>,
    previous: Option<SessionStamp>,
) -> (result: Result<SessionStamp, ProductSessionError>)
    ensures
        result == (match activation_fault(lane, stamp, pending, control, previous) {
            Some(error) => Err::<SessionStamp, ProductSessionError>(error),
            None => Ok::<SessionStamp, ProductSessionError>(stamp),
        }),
{
    match check_lane(StreamKind::Control, lane) {
        Err(error) => return Err(error),
        Ok(()) => {},
    }
    let stamp: SessionStamp = match validate_handshake_completed(stamp, pending, control) {
        Ok(stamp) => stamp,
        Err(error) => return Err(error),
    };
    match previous {
        Some(previous) => {
            if stamp.session_id == previous.session_id || stamp.generation <= previous.generation
                || stamp.authorization_epoch <= previous.authorization_epoch
                || stamp.display_epoch <= previous.display_epoch || stamp.codec_epoch
                <= previous.codec_epoch {
                return Err(
                    peer(
                        ProductProtocolViolation::NonMonotonicSuccessor {
                            previous,
                            actual: stamp,
                        },
                    ),
                );
            }
        },
        None => {},
    }
    Ok(stamp)
}

/// Succession is strict: no session succeeds itself, and none succeeds one
/// that succeeds it.
pub proof fn law_succession_is_strict(first: SessionStamp, second: SessionStamp)
    ensures
        !succeeds(first, first),
        succeeds(first, second) ==> !succeeds(second, first),
{
}

/// What a host publishes, a first client accepts.
pub proof fn law_published_stamp_is_accepted(
    stamp: SessionStamp,
    record: OutgoingControl<HandshakeCompletedMessage>,
)
    requires
        stamp_fault(stamp, Ok(())) is None,
        is_publication(record, stamp),
    ensures
        activation_fault(
            StreamKind::Control,
            stamp,
            Ok(()),
            Ok(
                ReceivedControl {
                    kind: record.kind,
                    session_id: record.session_id,
                    body: Ok(record.body),
                },
            ),
            None,
        ) is None,
{
}

/// Accepts the lane that is due.
pub fn check_lane(wanted: StreamKind, got: StreamKind) -> (result: Result<(), ProductSessionError>)
    ensures
        result == (if got == wanted {
            Ok::<(), ProductSessionError>(())
        } else {
            Err::<(), ProductSessionError>(
                ProductSessionError::PeerProtocol(
                    ProductProtocolViolation::UnexpectedLane { expected: wanted, actual: got },
                ),
            )
        }),
{
    if got != wanted {
        return Err(peer(ProductProtocolViolation::UnexpectedLane { expected: wanted, actual: got }));
    }
    Ok(())
}

/// Accepts a record that carries the exact active stamp.
pub fn check_stamp(active: SessionStamp, carried: SessionStamp) -> (result: Result<
    (),
    ProductSessionError,
>)
    ensures
        result == (if carried == active {
            Ok::<(), ProductSessionError>(())
        } else {
            Err::<(), ProductSessionError>(
                ProductSessionError::PeerProtocol(
                    ProductProtocolViolation::StampMismatch { expected: active, actual: carried },
                ),
            )
        }),
{
    if carried != active {
        return Err(peer(ProductProtocolViolation::StampMismatch { expected: active, actual: carried }));
    }
    Ok(())
}

// ---------------------------------------------------------------------------
// Control and input lanes
// ---------------------------------------------------------------------------
/// Records that move a session to another route.
pub open spec fn is_route_kind(kind: ControlKind) -> bool {
    ||| kind == ControlKind::RoutePrepare
    ||| kind == ControlKind::RoutePrepared
    ||| kind == ControlKind::RouteCommit
    ||| kind == ControlKind::RouteActivated
    ||| kind == ControlKind::RouteConfirmed
}

/// Whether a record moves a session to another route.
pub fn is_route_control(kind: ControlKind) -> (result: bool)
    ensures
        result == is_route_kind(kind),
{
    matches!(
        kind,
        ControlKind::RoutePrepare | ControlKind::RoutePrepared | ControlKind::RouteCommit
            | ControlKind::RouteActivated | ControlKind::RouteConfirmed
    )
}

/// Why a record cannot travel through the generic control interface.
pub open spec fn generic_control_fault(kind: ControlKind) -> Option<ProductSessionError> {
    if kind == ControlKind::IceCredentials || kind == ControlKind::IceCandidate {
        Some(
            ProductSessionError::IceGeneration(
                IceGenerationViolation::IceControlRequiresTypedApi,
            ),
        )
    } else if is_route_kind(kind) {
        Some(
            ProductSessionError::RouteTransition(
                RouteTransitionViolation::ControlRequiresTypedApi,
            ),
        )
    } else {
        None
    }
}

/// Accepts the kinds of the generic control interface. ICE and route records
/// have typed interfaces, so that capability, role, generation, and mode state
/// cannot be bypassed.
pub fn check_generic_control(kind: ControlKind) -> (result: Result<(), ProductSessionError>)
    ensures
        result == (match generic_control_fault(kind) {
            Some(error) => Err::<(), ProductSessionError>(error),
            None => Ok::<(), ProductSessionError>(()),
        }),
{
    if matches!(kind, ControlKind::IceCredentials | ControlKind::IceCandidate) {
        return Err(
            ProductSessionError::IceGeneration(IceGenerationViolation::IceControlRequiresTypedApi),
        );
    }
    if is_route_control(kind) {
        return Err(
            ProductSessionError::RouteTransition(
                RouteTransitionViolation::ControlRequiresTypedApi,
            ),
        );
    }
    Ok(())
}

/// Accepts only a route that has application authority.
pub fn check_authorized(authorized: bool) -> (result: Result<(), ProductSessionError>)
    ensures
        result == (if authorized {
            Ok::<(), ProductSessionError>(())
        } else {
            Err::<(), ProductSessionError>(
                ProductSessionError::RouteTransition(RouteTransitionViolation::InactiveRoute),
            )
        }),
{
    if authorized {
        Ok(())
    } else {
        Err(ProductSessionError::RouteTransition(RouteTransitionViolation::InactiveRoute))
    }
}

/// Decides whether the application may send a control record.
pub fn send_control(authorized: bool, kind: ControlKind) -> (result: Result<
    (),
    ProductSessionError,
>)
    ensures
        result == (if !authorized {
            Err::<(), ProductSessionError>(
                ProductSessionError::RouteTransition(RouteTransitionViolation::InactiveRoute),
            )
        } else {
            match generic_control_fault(kind) {
                Some(error) => Err::<(), ProductSessionError>(error),
                None => Ok::<(), ProductSessionError>(()),
            }
        }),
{
    match check_authorized(authorized) {
        Err(error) => return Err(error),
        Ok(()) => {},
    }
    check_generic_control(kind)
}

/// The length field of a control payload.
pub fn control_payload_len(len: usize) -> (result: Result<u32, ProductSessionError>)
    ensures
        result == (if len <= u32::MAX {
            Ok::<u32, ProductSessionError>(len as u32)
        } else {
            Err::<u32, ProductSessionError>(
                ProductSessionError::Protocol(ProtocolError::ControlLength(u32::MAX)),
            )
        }),
{
    if len as u64 > u32::MAX as u64 {
        return Err(ProductSessionError::Protocol(ProtocolError::ControlLength(u32::MAX)));
    }
    Ok(len as u32)
}

/// Why a control record that arrived is refused.
pub open spec fn control_fault<T>(
    authorized: bool,
    allow_inactive: bool,
    active: SessionStamp,
    carried: SessionStamp,
    packet: Result<ReceivedControl<T>, ProtocolError>,
) -> Option<ProductSessionError> {
    if !allow_inactive && !authorized {
        Some(ProductSessionError::RouteTransition(RouteTransitionViolation::InactiveRoute))
    } else if carried != active {
        Some(
            ProductSessionError::PeerProtocol(
                ProductProtocolViolation::StampMismatch { expected: active, actual: carried },
            ),
        )
    } else {
        match packet {
            Err(error) => Some(
                ProductSessionError::PeerProtocol(
                    ProductProtocolViolation::MalformedControl(error),
                ),
            ),
            Ok(packet) => if packet.session_id != active.session_id {
                Some(
                    ProductSessionError::PeerProtocol(
                        ProductProtocolViolation::ControlSessionMismatch {
                            expected: active.session_id,
                            actual: packet.session_id,
                        },
                    ),
                )
            } else {
                None
            },
        }
    }
}

/// Takes a control record that arrived on the control lane. `authorized` is
/// the route's authority after the read.
pub fn receive_control<T>(
    authorized: bool,
    allow_inactive: bool,
    active: SessionStamp,
    carried: SessionStamp,
    packet: Result<ReceivedControl<T>, ProtocolError>,
) -> (result: Result<PrivateControl<T>, ProductSessionError>)
    ensures
        match control_fault(authorized, allow_inactive, active, carried, packet) {
            Some(error) => result is Err && result->Err_0 == error,
            None => result is Ok && packet is Ok && result->Ok_0 == (PrivateControl {
                kind: packet->Ok_0.kind,
                body: packet->Ok_0.body,
            }),
        },
{
    if !allow_inactive {
        match check_authorized(authorized) {
            Err(error) => return Err(error),
            Ok(()) => {},
        }
    }
    match check_stamp(active, carried) {
        Err(error) => return Err(error),
        Ok(()) => {},
    }
    let packet = match packet {
        Ok(packet) => packet,
        Err(error) => return Err(peer(ProductProtocolViolation::MalformedControl(error))),
    };
    if packet.session_id != active.session_id {
        return Err(
            peer(
                ProductProtocolViolation::ControlSessionMismatch {
                    expected: active.session_id,
                    actual: packet.session_id,
                },
            ),
        );
    }
    Ok(PrivateControl { kind: packet.kind, body: packet.body })
}

/// Takes an input record that arrived on the input lane.
pub fn receive_input(authorized: bool, active: SessionStamp, carried: SessionStamp) -> (result:
    Result<(), ProductSessionError>)
    ensures
        result == (if !authorized {
            Err::<(), ProductSessionError>(
                ProductSessionError::RouteTransition(RouteTransitionViolation::InactiveRoute),
            )
        } else if carried != active {
            Err::<(), ProductSessionError>(
                ProductSessionError::PeerProtocol(
                    ProductProtocolViolation::StampMismatch { expected: active, actual: carried },
                ),
            )
        } else {
            Ok::<(), ProductSessionError>(())
        }),
{
    match check_authorized(authorized) {
        Err(error) => return Err(error),
        Ok(()) => {},
    }
    check_stamp(active, carried)
}

// ---------------------------------------------------------------------------
// Media
// ---------------------------------------------------------------------------
/// Path telemetry for adaptation feedback.
#[derive(Debug, Clone, Copy, PartialEq, Eq, Structural)]
pub struct ProductNetworkStats {
    pub rtt_ns: u64,
    pub sent_packets: u64,
    pub lost_packets: u64,
    pub congestion_events: u64,
    pub congestion_window_bytes: u64,
    pub current_mtu: u16,
}

/// Successful whole-frame submission details.
#[derive(Debug, Clone, Copy, PartialEq, Eq, Structural)]
pub struct MediaFrameSendReport {
    /// Number of QUIC DATAGRAMs accepted by the connection.
    pub fragments_sent: usize,
    /// Largest complete media datagram submitted for this frame.
    pub largest_datagram_bytes: usize,
    /// Path limit observed before packetization.
    pub path_max_datagram_bytes: usize,
    /// Sender-local deadline encoded in every fragment.
    pub expires_at_ns: u64,
}

/// Bytes left for a media packet under an outer header, if at least one byte
/// of payload fits.
pub open spec fn packet_budget(wire: MediaWire, outer: usize, path_max: usize) -> Option<usize> {
    if path_max < outer || path_max - outer <= wire.header_len {
        None
    } else if path_max - outer > MAX_DATAGRAM_MTU {
        Some(MAX_DATAGRAM_MTU)
    } else {
        Some((path_max - outer) as usize)
    }
}

/// The byte budget of an encoded media packet on a path.
pub fn media_packet_budget(wire: MediaWire, outer_header_bytes: usize, path_max: usize) -> (result:
    Result<usize, ProductSessionError>)
    requires
        wire.header_len < usize::MAX,
    ensures
        match packet_budget(wire, outer_header_bytes, path_max) {
            Some(budget) => result == Ok::<usize, ProductSessionError>(budget),
            None => result == Err::<usize, ProductSessionError>(
                ProductSessionError::DatagramBudgetTooSmall {
                    path_max_datagram_bytes: path_max,
                    outer_header_bytes,
                    minimum_inner_datagram_bytes: (wire.header_len + 1) as usize,
                },
            ),
        },
{
    let minimum: usize = wire.header_len + 1;
    if path_max < outer_header_bytes || path_max - outer_header_bytes < minimum {
        return Err(
            ProductSessionError::DatagramBudgetTooSmall {
                path_max_datagram_bytes: path_max,
                outer_header_bytes,
                minimum_inner_datagram_bytes: minimum,
            },
        );
    }
    let available: usize = path_max - outer_header_bytes;
    if available > MAX_DATAGRAM_MTU {
        Ok(MAX_DATAGRAM_MTU)
    } else {
        Ok(available)
    }
}

/// A frame split for sending.
#[derive(Debug)]
pub struct MediaPlan {
    /// Packets to wrap and submit in order.
    pub packets: Vec<MediaPacket>,
    pub largest_datagram_bytes: usize,
    pub path_max_datagram_bytes: usize,
    pub expires_at_ns: u64,
}

/// Why a frame cannot be sent.
pub open spec fn media_fault(
    wire: MediaWire,
    outer: usize,
    authorized: bool,
    frame_len: int,
    max_age_ns: u128,
    now_ns: u64,
    path_max: Option<usize>,
    encodable: Result<(), ProtocolError>,
) -> Option<ProductSessionError> {
    if !authorized {
        Some(ProductSessionError::RouteTransition(RouteTransitionViolation::InactiveRoute))
    } else if max_age_ns == 0 || max_age_ns > u64::MAX {
        Some(ProductSessionError::InvalidMediaMaxAge)
    } else {
        match path_max {
            None => Some(ProductSessionError::DatagramsUnsupported),
            Some(path_max) => match packet_budget(wire, outer, path_max) {
                None => Some(
                    ProductSessionError::DatagramBudgetTooSmall {
                        path_max_datagram_bytes: path_max,
                        outer_header_bytes: outer,
                        minimum_inner_datagram_bytes: (wire.header_len + 1) as usize,
                    },
                ),
                Some(budget) => if wire.header_len >= budget {
                    Some(ProductSessionError::Transport(TransportError::DatagramMtu(budget)))
                } else {
                    match fragment_error(wire, frame_len, budget) {
                        Some(error) => Some(ProductSessionError::Transport(error)),
                        None => if now_ns + max_age_ns > u64::MAX {
                            Some(ProductSessionError::MediaDeadlineOverflow)
                        } else {
                            match encodable {
                                Err(error) => Some(ProductSessionError::Protocol(error)),
                                Ok(()) => None,
                            }
                        },
                    }
                },
            },
        }
    }
}

/// The largest payload among packets.
pub open spec fn largest_payload(packets: Seq<PacketView>) -> nat
    decreases packets.len(),
{
    if packets.len() == 0 {
        0
    } else {
        let earlier = largest_payload(packets.drop_last());
        if packets.last().payload.len() > earlier {
            packets.last().payload.len()
        } else {
            earlier
        }
    }
}

proof fn lemma_largest_payload(packets: Seq<PacketView>, bound: nat)
    requires
        forall|i: int| 0 <= i < packets.len() ==> (#[trigger] packets[i]).payload.len() <= bound,
    ensures
        largest_payload(packets) <= bound,
    decreases packets.len(),
{
    if packets.len() > 0 {
        let front = packets.drop_last();
        assert forall|i: int| 0 <= i < front.len() implies (#[trigger] front[i]).payload.len()
            <= bound by {
            assert(front[i] == packets[i]);
        }
        lemma_largest_payload(front, bound);
        assert(packets[packets.len() - 1].payload.len() <= bound);
    }
}

/// Splits one bounded frame for the current path and fixes one sender-local
/// deadline. Every complete datagram is known to fit before the first one is
/// submitted. `encodable` is the datagram codec's verdict on datagrams of this
/// frame.
pub fn plan_media_frame(
    wire: MediaWire,
    outer_header_bytes: usize,
    authorized: bool,
    spec: FragmentSpec,
    frame: &[u8],
    max_age_ns: u128,
    now_ns: u64,
    path_max: Option<usize>,
    encodable: Result<(), ProtocolError>,
) -> (result: Result<MediaPlan, ProductSessionError>)
    requires
        wire.header_len < usize::MAX,
    ensures
        match media_fault(
            wire,
            outer_header_bytes,
            authorized,
            frame@.len() as int,
            max_age_ns,
            now_ns,
            path_max,
            encodable,
        ) {
            Some(error) => result is Err && result->Err_0 == error,
            None => {
                let plan = result->Ok_0;
                let budget = packet_budget(wire, outer_header_bytes, path_max->Some_0)->Some_0;
                &&& result is Ok
                &&& packet_views(plan.packets@) == fragments(
                    spec,
                    wire,
                    frame@,
                    budget - wire.header_len,
                )
                &&& plan.largest_datagram_bytes == outer_header_bytes + wire.header_len
                    + largest_payload(packet_views(plan.packets@))
                &&& plan.largest_datagram_bytes <= plan.path_max_datagram_bytes
                &&& plan.path_max_datagram_bytes == path_max->Some_0
                &&& plan.expires_at_ns == now_ns + max_age_ns
            },
        },
{
    match check_authorized(authorized) {
        Err(error) => return Err(error),
        Ok(()) => {},
    }
    if max_age_ns == 0 || max_age_ns > u64::MAX as u128 {
        return Err(ProductSessionError::InvalidMediaMaxAge);
    }
    let path_max: usize = match path_max {
        Some(path_max) => path_max,
        None => return Err(ProductSessionError::DatagramsUnsupported),
    };
    let budget: usize = match media_packet_budget(wire, outer_header_bytes, path_max) {
        Ok(budget) => budget,
        Err(error) => return Err(error),
    };
    let packets: Vec<MediaPacket> = match fragment_frame_with_packet_budget(
        wire,
        spec,
        frame,
        budget,
        Ok(()),
    ) {
        Ok(packets) => packets,
        Err(error) => return Err(ProductSessionError::Transport(error)),
    };
    let ghost views = packet_views(packets@);
    let mut largest: usize = 0;
    let mut index: usize = 0;
    proof {
        assert(views.take(0) =~= Seq::empty());
    }
    while index < packets.len()
        invariant
            index <= packets@.len(),
            views == packet_views(packets@),
            largest == largest_payload(views.take(index as int)),
        decreases packets@.len() - index,
    {
        let len: usize = packets[index].payload().len();
        proof {
            let longer = views.take(index + 1);
            assert(longer.drop_last() =~= views.take(index as int));
            assert(longer.last() == packets@[index as int]@);
        }
        if len > largest {
            largest = len;
        }
        index += 1;
    }
    proof {
        assert(views.take(index as int) =~= views);
        let cap = budget - wire.header_len;
        assert forall|i: int| 0 <= i < views.len() implies (#[trigger] views[i]).payload.len()
            <= cap as nat by {
            crate::fragment::law_fragments_fit(spec, wire, frame@, budget, i);
        }
        lemma_largest_payload(views, cap as nat);
    }
    let largest_datagram_bytes: usize = outer_header_bytes + wire.header_len + largest;
    let expires_at_ns: u64 = match now_ns.checked_add(max_age_ns as u64) {
        None => return Err(ProductSessionError::MediaDeadlineOverflow),
        Some(expires_at_ns) => expires_at_ns,
    };
    match encodable {
        Err(error) => Err(ProductSessionError::Protocol(error)),
        Ok(()) => Ok(
            MediaPlan {
                packets,
                largest_datagram_bytes,
                path_max_datagram_bytes: path_max,
                expires_at_ns,
            },
        ),
    }
}

/// The number of datagrams accepted before the first that was not.
pub open spec fn sent_before_abort(outcomes: Seq<MediaSendOutcome>) -> nat
    decreases outcomes.len(),
{
    if outcomes.len() == 0 || outcomes[0] != MediaSendOutcome::Sent {
        0
    } else {
        1 + sent_before_abort(outcomes.skip(1))
    }
}

/// Counts one submitted datagram of a frame with `total` of them. Any outcome
/// but acceptance aborts the whole access unit.
pub fn count_submission(sent: usize, total: usize, outcome: MediaSendOutcome) -> (result: Result<
    usize,
    ProductSessionError,
>)
    requires
        sent < total,
    ensures
        result == (if outcome == MediaSendOutcome::Sent {
            Ok::<usize, ProductSessionError>((sent + 1) as usize)
        } else {
            Err::<usize, ProductSessionError>(
                ProductSessionError::MediaSendAborted {
                    outcome,
                    fragments_sent: sent,
                    fragments_total: total,
                },
            )
        }),
{
    if outcome != MediaSendOutcome::Sent {
        return Err(
            ProductSessionError::MediaSendAborted {
                outcome,
                fragments_sent: sent,
                fragments_total: total,
            },
        );
    }
    Ok(sent + 1)
}

/// Judges the outcomes of a frame's submissions, which end with the frame or
/// with the first datagram that was not accepted.
pub fn report_media_frame(plan: &MediaPlan, outcomes: &[MediaSendOutcome]) -> (result: Result<
    MediaFrameSendReport,
    ProductSessionError,
>)
    requires
        outcomes@.len() <= plan.packets@.len(),
        sent_before_abort(outcomes@) == outcomes@.len() ==> outcomes@.len()
            == plan.packets@.len(),
    ensures
        ({
            let sent = sent_before_abort(outcomes@);
            &&& sent <= outcomes@.len()
            &&& result == (if sent == plan.packets@.len() {
                Ok::<MediaFrameSendReport, ProductSessionError>(
                    MediaFrameSendReport {
                        fragments_sent: sent as usize,
                        largest_datagram_bytes: plan.largest_datagram_bytes,
                        path_max_datagram_bytes: plan.path_max_datagram_bytes,
                        expires_at_ns: plan.expires_at_ns,
                    },
                )
            } else {
                Err::<MediaFrameSendReport, ProductSessionError>(
                    ProductSessionError::MediaSendAborted {
                        outcome: outcomes@[sent as int],
                        fragments_sent: sent as usize,
                        fragments_total: plan.packets@.len() as usize,
                    },
                )
            })
        }),
{
    let total: usize = plan.packets.len();
    let mut sent: usize = 0;
    proof {
        assert(outcomes@.skip(0) =~= outcomes@);
    }
    while sent < outcomes.len()
        invariant
            sent <= outcomes@.len() <= total,
            total == plan.packets@.len(),
            sent_before_abort(outcomes@) == sent + sent_before_abort(outcomes@.skip(sent as int)),
        decreases outcomes@.len() - sent,
    {
        proof {
            assert(outcomes@.skip(sent as int)[0] == outcomes@[sent as int]);
            assert(outcomes@.skip(sent as int).skip(1) =~= outcomes@.skip(sent + 1));
        }
        match count_submission(sent, total, outcomes[sent]) {
            Ok(next) => {
                sent = next;
            },
            Err(error) => return Err(error),
        }
    }
    Ok(
        MediaFrameSendReport {
            fragments_sent: sent,
            largest_datagram_bytes: plan.largest_datagram_bytes,
            path_max_datagram_bytes: plan.path_max_datagram_bytes,
            expires_at_ns: plan.expires_at_ns,
        },
    )
}

/// Reassembly failures that concern one datagram only.
pub open spec fn skips_datagram(error: TransportError) -> bool {
    match error {
        TransportError::StaleCodecEpoch { .. } => true,
        TransportError::MetadataConflict(_) => true,
        TransportError::FragmentConflict => true,
        TransportError::FragmentOverlap => true,
        TransportError::ReplayDetected(_) => true,
        TransportError::FragmentEntryLimit => true,
        TransportError::ReassemblyCapacity => true,
        TransportError::FrameExceedsReassemblyBudget { .. } => true,
        _ => false,
    }
}

/// Whether a reassembly failure concerns one datagram only.
pub fn is_skippable_ingest_error(error: &TransportError) -> (skippable: bool)
    ensures
        skippable == skips_datagram(*error),
{
    matches!(
        *error,
        TransportError::StaleCodecEpoch { .. } | TransportError::MetadataConflict(_)
            | TransportError::FragmentConflict | TransportError::FragmentOverlap
            | TransportError::ReplayDetected(_) | TransportError::FragmentEntryLimit
            | TransportError::ReassemblyCapacity
            | TransportError::FrameExceedsReassemblyBudget { .. }
    )
}

/// A media datagram that arrived: its stamp, the length of its inner packet
/// and the packet.
#[derive(Debug)]
pub struct ReceivedMedia {
    pub stamp: SessionStamp,
    pub inner_len: usize,
    pub packet: Result<MediaPacket, ProtocolError>,
}

/// A media datagram as mathematics sees it.
pub struct ReceivedMediaView {
    pub stamp: SessionStamp,
    pub inner_len: usize,
    pub packet: Result<PacketView, ProtocolError>,
}

impl View for ReceivedMedia {
    type V = ReceivedMediaView;

    open spec fn view(&self) -> ReceivedMediaView {
        ReceivedMediaView {
            stamp: self.stamp,
            inner_len: self.inner_len,
            packet: decoded_view(self.packet),
        }
    }
}

/// The view of a media datagram that decodes, or why it does not.
pub open spec fn media_view(datagram: Result<ReceivedMedia, ProtocolError>) -> Result<
    ReceivedMediaView,
    ProtocolError,
> {
    match datagram {
        Ok(datagram) => Ok(datagram@),
        Err(error) => Err(error),
    }
}

/// A delivered frame as mathematics sees it.
pub struct DeliveredFrame {
    pub header: MediaHeader,
    pub bytes: Seq<u8>,
    pub first_fragment_ns: u64,
    pub completed_ns: u64,
}

/// The view of a step: the frame to hand to the application, if any.
pub open spec fn step_view(result: Result<MediaStep, ProductSessionError>) -> Result<
    Option<DeliveredFrame>,
    ProductSessionError,
> {
    match result {
        Err(error) => Err(error),
        Ok(MediaStep::Continue) => Ok(None),
        Ok(MediaStep::Deliver(frame)) => Ok(
            Some(
                DeliveredFrame {
                    header: frame.header,
                    bytes: frame.bytes@,
                    first_fragment_ns: frame.first_fragment_ns,
                    completed_ns: frame.completed_ns,
                },
            ),
        ),
    }
}

/// What becomes of a media datagram that arrived.
#[derive(Debug)]
pub enum MediaStep {
    /// Hand this frame to the application.
    Deliver(ReassembledFrame),
    /// Wait for the next datagram.
    Continue,
}

/// The receive side as mathematics sees it.
#[verifier::ext_equal]
pub struct MediaReceiverView {
    pub config: ReassemblyConfig,
    pub wire: MediaWire,
    pub reassembler: ReassemblerView,
    pub route_epoch: u64,
    pub last_delivered: Option<u64>,
}

/// An empty reassembler.
pub open spec fn empty_reassembler(config: ReassemblyConfig, wire: MediaWire) -> ReassemblerView {
    ReassemblerView {
        config,
        wire,
        frames: Map::empty(),
        stats: crate::reassembly::no_events(),
        active_codec_epoch: 1,
    }
}

impl MediaReceiverView {
    /// The receiver on the route of `active`: a new route starts reassembly
    /// afresh.
    pub open spec fn on_route(self, active: SessionStamp) -> MediaReceiverView {
        if self.route_epoch == active.route_epoch {
            self
        } else {
            MediaReceiverView {
                reassembler: empty_reassembler(self.config, self.wire),
                route_epoch: active.route_epoch,
                ..self
            }
        }
    }

    /// The receiver after reassembling a packet, and what that gave.
    pub open spec fn ingesting(
        self,
        inner_len: usize,
        packet: Result<PacketView, ProtocolError>,
        now_ns: u64,
    ) -> (MediaReceiverView, Result<OutcomeView, TransportError>) {
        let step = self.reassembler.ingesting(inner_len, packet, now_ns);
        (MediaReceiverView { reassembler: step.0, ..self }, step.1)
    }

    /// The receiver after the fragment of a media datagram went to reassembly,
    /// and what that gave. `active` is the stamp at that time.
    pub open spec fn storing(
        self,
        authorized: bool,
        active: SessionStamp,
        datagram: Result<ReceivedMediaView, ProtocolError>,
        now_ns: u64,
    ) -> (MediaReceiverView, Result<Result<OutcomeView, TransportError>, ProductSessionError>) {
        if !authorized {
            (
                self,
                Err(ProductSessionError::RouteTransition(RouteTransitionViolation::InactiveRoute)),
            )
        } else {
            match datagram {
                Err(error) => (self, Err(ProductSessionError::Protocol(error))),
                Ok(datagram) => if datagram.stamp != active {
                    (
                        self,
                        Err(
                            ProductSessionError::PeerProtocol(
                                ProductProtocolViolation::StampMismatch {
                                    expected: active,
                                    actual: datagram.stamp,
                                },
                            ),
                        ),
                    )
                } else {
                    let step = self.on_route(active).ingesting(
                        datagram.inner_len,
                        datagram.packet,
                        now_ns,
                    );
                    (step.0, Ok(step.1))
                },
            }
        }
    }

    /// The receiver after it judged what reassembly gave, and the frame to hand
    /// to the application, if any. `active` is the stamp before and `current`
    /// the stamp after reassembly.
    pub open spec fn judging(
        self,
        active: SessionStamp,
        current: SessionStamp,
        outcome: Result<OutcomeView, TransportError>,
    ) -> (MediaReceiverView, Result<Option<DeliveredFrame>, ProductSessionError>) {
        if current != active {
            (self, Ok(None))
        } else {
            match outcome {
                Ok(OutcomeView::Complete { header, bytes, first_fragment_ns, completed_ns }) => if self.is_stale(
                    header.frame_id,
                ) {
                    (self, Ok(None))
                } else {
                    (
                        MediaReceiverView { last_delivered: Some(header.frame_id), ..self },
                        Ok(
                            Some(
                                DeliveredFrame { header, bytes, first_fragment_ns, completed_ns },
                            ),
                        ),
                    )
                },
                Ok(_) => (self, Ok(None)),
                Err(error) => if skips_datagram(error) {
                    (self, Ok(None))
                } else {
                    (self, Err(ProductSessionError::Transport(error)))
                },
            }
        }
    }

    /// The receiver after a media datagram, and the frame to hand to the
    /// application, if any. `active` is the stamp before and `current` the
    /// stamp after reassembly.
    pub open spec fn taking(
        self,
        authorized: bool,
        active: SessionStamp,
        current: SessionStamp,
        datagram: Result<ReceivedMediaView, ProtocolError>,
        now_ns: u64,
    ) -> (MediaReceiverView, Result<Option<DeliveredFrame>, ProductSessionError>) {
        let stored = self.storing(authorized, active, datagram, now_ns);
        match stored.1 {
            Err(error) => (stored.0, Err(error)),
            Ok(outcome) => stored.0.judging(active, current, outcome),
        }
    }

    /// A complete frame is older than what was delivered already.
    pub open spec fn is_stale(self, frame_id: u64) -> bool {
        match self.last_delivered {
            Some(previous) => frame_id <= previous,
            None => false,
        }
    }
}

/// Reassembles media of one session across routes.
#[derive(Debug)]
pub struct MediaReceiver {
    reassembler: Reassembler,
    config: ReassemblyConfig,
    wire: MediaWire,
    route_epoch: u64,
    last_delivered: Option<u64>,
}

impl View for MediaReceiver {
    type V = MediaReceiverView;

    closed spec fn view(&self) -> MediaReceiverView {
        MediaReceiverView {
            config: self.config,
            wire: self.wire,
            reassembler: self.reassembler@,
            route_epoch: self.route_epoch,
            last_delivered: self.last_delivered,
        }
    }
}

impl MediaReceiver {
    /// The reassembler is well-formed.
    pub closed spec fn wf(&self) -> bool {
        &&& self.reassembler.wf()
        &&& self.config.is_valid(self.wire)
    }

    /// A receiver on the route of a session's stamp.
    pub fn new(config: ReassemblyConfig, wire: MediaWire, stamp: SessionStamp) -> (result: Result<
        Self,
        ProductSessionError,
    >)
        ensures
            result is Ok <==> config.is_valid(wire),
            result is Err ==> result->Err_0 == ProductSessionError::Transport(
                TransportError::InvalidReassemblyConfig,
            ),
            result is Ok ==> result->Ok_0.wf() && result->Ok_0@ == (MediaReceiverView {
                config,
                wire,
                reassembler: empty_reassembler(config, wire),
                route_epoch: stamp.route_epoch,
                last_delivered: None,
            }),
    {
        match Reassembler::new(config, wire) {
            Ok(reassembler) => Ok(
                MediaReceiver {
                    reassembler,
                    config,
                    wire,
                    route_epoch: stamp.route_epoch,
                    last_delivered: None,
                },
            ),
            Err(error) => Err(ProductSessionError::Transport(error)),
        }
    }

    /// Drops incomplete frames that are too old.
    pub fn expire(&mut self, now_ns: u64) -> (count: usize)
        requires
            old(self).wf(),
        ensures
            final(self).wf(),
            final(self)@ == (MediaReceiverView {
                reassembler: old(self)@.reassembler.expired(now_ns),
                ..old(self)@
            }),
            count == old(self)@.reassembler.frames.dom().len()
                - final(self)@.reassembler.frames.dom().len(),
    {
        self.reassembler.expire(now_ns)
    }

    /// The reassembler.
    pub fn reassembler(&self) -> (reassembler: &Reassembler)
        requires
            self.wf(),
        ensures
            reassembler@ == self@.reassembler,
            reassembler.wf(),
    {
        &self.reassembler
    }

    /// Gives the fragment of one media datagram to reassembly. `active` is the
    /// stamp at that time. The peer's absolute expiry is intentionally not
    /// compared with this machine's clock; only local arrival times drive
    /// bounded reassembly age. On an error the connection is closed, except
    /// when the route has lost its authority.
    pub fn store(
        &mut self,
        authorized: bool,
        active: SessionStamp,
        datagram: Result<ReceivedMedia, ProtocolError>,
        now_ns: u64,
    ) -> (result: Result<Result<IngestOutcome, TransportError>, ProductSessionError>)
        requires
            old(self).wf(),
        ensures
            final(self).wf(),
            ({
                let step = old(self)@.storing(authorized, active, media_view(datagram), now_ns);
                &&& final(self)@ == step.0
                &&& match step.1 {
                    Ok(outcome) => result is Ok && result_view(result->Ok_0) == outcome,
                    Err(error) => result is Err && result->Err_0 == error,
                }
            }),
    {
        match check_authorized(authorized) {
            Err(error) => return Err(error),
            Ok(()) => {},
        }
        let datagram = match datagram {
            Ok(datagram) => datagram,
            Err(error) => return Err(ProductSessionError::Protocol(error)),
        };
        match check_stamp(active, datagram.stamp) {
            Err(error) => return Err(error),
            Ok(()) => {},
        }
        if self.route_epoch != active.route_epoch {
            match Reassembler::new(self.config, self.wire) {
                Ok(reassembler) => {
                    self.reassembler = reassembler;
                    self.route_epoch = active.route_epoch;
                },
                Err(error) => return Err(ProductSessionError::Transport(error)),
            }
        }
        Ok(self.reassembler.ingest(datagram.inner_len, datagram.packet, now_ns))
    }

    /// Judges what reassembly gave. `active` is the stamp before and `current`
    /// the stamp after reassembly: what was under way when the route changed is
    /// not delivered. On an error the connection is closed.
    pub fn judge(
        &mut self,
        active: SessionStamp,
        current: SessionStamp,
        outcome: Result<IngestOutcome, TransportError>,
    ) -> (result: Result<MediaStep, ProductSessionError>)
        requires
            old(self).wf(),
        ensures
            final(self).wf(),
            (final(self)@, step_view(result)) == old(self)@.judging(
                active,
                current,
                result_view(outcome),
            ),
    {
        if current != active {
            return Ok(MediaStep::Continue);
        }
        match outcome {
            Ok(IngestOutcome::Complete(frame)) => {
                let frame_id: u64 = frame.header.frame_id;
                match self.last_delivered {
                    Some(previous) => {
                        if frame_id <= previous {
                            return Ok(MediaStep::Continue);
                        }
                    },
                    None => {},
                }
                self.last_delivered = Some(frame_id);
                Ok(MediaStep::Deliver(frame))
            },
            Ok(_) => Ok(MediaStep::Continue),
            Err(error) => {
                if is_skippable_ingest_error(&error) {
                    Ok(MediaStep::Continue)
                } else {
                    Err(ProductSessionError::Transport(error))
                }
            },
        }
    }

    /// Takes one media datagram at once. `active` is the stamp before and
    /// `current` the stamp after reassembly.
    pub fn receive(
        &mut self,
        authorized: bool,
        active: SessionStamp,
        current: SessionStamp,
        datagram: Result<ReceivedMedia, ProtocolError>,
        now_ns: u64,
    ) -> (result: Result<MediaStep, ProductSessionError>)
        requires
            old(self).wf(),
        ensures
            final(self).wf(),
            (final(self)@, step_view(result)) == old(self)@.taking(
                authorized,
                active,
                current,
                media_view(datagram),
                now_ns,
            ),
    {
        match self.store(authorized, active, datagram, now_ns) {
            Err(error) => Err(error),
            Ok(outcome) => self.judge(active, current, outcome),
        }
    }
}

/// Frames reach the application in strictly increasing order: a frame that
/// finishes late, or a second time, is never delivered.
pub proof fn law_delivery_is_strictly_increasing(
    receiver: MediaReceiverView,
    authorized: bool,
    active: SessionStamp,
    current: SessionStamp,
    datagram: Result<ReceivedMediaView, ProtocolError>,
    now_ns: u64,
)
    ensures
        ({
            let step = receiver.taking(authorized, active, current, datagram, now_ns);
            match step.1 {
                Ok(Some(frame)) => {
                    &&& step.0.last_delivered == Some(frame.header.frame_id)
                    &&& receiver.last_delivered is Some ==> receiver.last_delivered->Some_0
                        < frame.header.frame_id
                },
                _ => step.0.last_delivered == receiver.last_delivered,
            }
        }),
{
}

/// A record of another route epoch is refused on every lane, and it reaches
/// neither the application nor the reassembler.
pub proof fn law_stale_route_epoch_is_refused<T>(
    receiver: MediaReceiverView,
    active: SessionStamp,
    carried: SessionStamp,
    packet: Result<ReceivedControl<T>, ProtocolError>,
    datagram: ReceivedMediaView,
    now_ns: u64,
)
    requires
        carried.route_epoch != active.route_epoch,
        datagram.stamp == carried,
    ensures
        ({
            let refusal = ProductSessionError::PeerProtocol(
                ProductProtocolViolation::StampMismatch { expected: active, actual: carried },
            );
            &&& control_fault(true, false, active, carried, packet) == Some(refusal)
            &&& receiver.taking(true, active, active, Ok(datagram), now_ns) == (
                receiver,
                Err::<Option<DeliveredFrame>, ProductSessionError>(refusal),
            )
        }),
{
}

/// A route without authority neither takes nor gives anything.
pub proof fn law_inactive_route_carries_nothing<T>(
    receiver: MediaReceiverView,
    active: SessionStamp,
    carried: SessionStamp,
    packet: Result<ReceivedControl<T>, ProtocolError>,
    datagram: Result<ReceivedMediaView, ProtocolError>,
    wire: MediaWire,
    outer: usize,
    frame_len: int,
    max_age_ns: u128,
    now_ns: u64,
    path_max: Option<usize>,
    encodable: Result<(), ProtocolError>,
)
    ensures
        ({
            let refusal = ProductSessionError::RouteTransition(
                RouteTransitionViolation::InactiveRoute,
            );
            &&& control_fault(false, false, active, carried, packet) == Some(refusal)
            &&& receiver.taking(false, active, active, datagram, now_ns) == (
                receiver,
                Err::<Option<DeliveredFrame>, ProductSessionError>(refusal),
            )
            &&& media_fault(
                wire,
                outer,
                false,
                frame_len,
                max_age_ns,
                now_ns,
                path_max,
                encodable,
            ) == Some(refusal)
        }),
{
}

} // verus!
