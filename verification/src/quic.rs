//! Decisions of the authenticated application lanes.
//!
//! QUIC owns encryption, authentication, loss recovery, congestion control,
//! stream ordering, and DATAGRAM path limits. This module decides what may go
//! onto a lane and what a lane may deliver.

use crate::control::StreamKind;
use crate::error::ProtocolError;
use vstd::prelude::*;

verus! {

/// Application error code for a protocol violation.
pub const PROTOCOL_VIOLATION_CODE: u32 = 0x100;

/// Outcome of an unreliable media submission.
#[derive(Debug, Clone, Copy, PartialEq, Eq, Structural)]
pub enum MediaSendOutcome {
    /// The connection accepted the DATAGRAM for transmission.
    Sent,
    /// The deadline elapsed locally, so no network work was performed.
    DroppedExpired,
    /// The current QUIC path cannot carry the complete DATAGRAM.
    DroppedTooLarge,
    /// The negotiated peer or local endpoint does not support DATAGRAMs.
    Unsupported,
}

/// How a connection ended.
#[derive(Debug, Clone, Copy, PartialEq, Eq, Structural)]
pub enum ConnectionLoss {
    TimedOut,
    Reset,
    ApplicationClosed,
    Other,
}

/// Why a stream read failed.
#[derive(Debug, Clone, Copy, PartialEq, Eq, Structural)]
pub enum ReadFault {
    FinishedEarly,
    ConnectionLost(ConnectionLoss),
    Other,
}

/// Why a stream write failed.
#[derive(Debug, Clone, Copy, PartialEq, Eq, Structural)]
pub enum WriteFault {
    ConnectionLost(ConnectionLoss),
    Other,
}

/// What the connection made of one DATAGRAM.
#[derive(Debug, Clone, Copy, PartialEq, Eq, Structural)]
pub enum DatagramVerdict {
    Accepted,
    UnsupportedByPeer,
    Disabled,
    TooLarge,
    ConnectionLost(ConnectionLoss),
}

/// Failures surfaced by the QUIC lane adapter.
#[derive(Debug, Clone, Copy, PartialEq, Eq, Structural)]
pub enum QuicTransportError {
    /// The endpoint socket could not be created.
    Io,
    /// A client connection could not be started.
    Connect,
    /// The QUIC connection or endpoint closed.
    Connection(ConnectionLoss),
    /// A reliable stream ended before its declared record body.
    Read(ReadFault),
    /// A reliable stream write was rejected.
    Write(WriteFault),
    /// The scheduler deadline disagreed with the authenticated wire record.
    ExpiryMismatch { expected: u64, actual: u64 },
    /// A bounded application record was malformed or inconsistent.
    Protocol(ProtocolError),
    /// The endpoint stopped before an incoming connection was accepted.
    EndpointClosed,
    /// No TLS peer identity was exposed.
    MissingPeerIdentity,
    /// The identity was not a certificate chain.
    UnexpectedPeerIdentity,
    /// The peer attempted to open a second instance of an application lane.
    DuplicateInboundLane(StreamKind),
    /// A later record changed the kind assigned to its stream.
    StreamKindChanged { expected: StreamKind, actual: StreamKind },
}

/// The path timed out or was reset by the peer.
pub open spec fn is_path_loss(loss: ConnectionLoss) -> bool {
    loss == ConnectionLoss::TimedOut || loss == ConnectionLoss::Reset
}

impl QuicTransportError {
    /// The error reports the loss of an established path.
    pub open spec fn reports_path_loss(self) -> bool {
        match self {
            QuicTransportError::Connection(loss) => is_path_loss(loss),
            QuicTransportError::Read(ReadFault::ConnectionLost(loss)) => is_path_loss(loss),
            QuicTransportError::Write(WriteFault::ConnectionLost(loss)) => is_path_loss(loss),
            _ => false,
        }
    }

    /// True only when the path timed out or was reset by its peer.
    pub fn is_retryable_connection_loss(&self) -> (retryable: bool)
        ensures
            retryable == self.reports_path_loss(),
    {
        match *self {
            QuicTransportError::Connection(loss) => loss == ConnectionLoss::TimedOut || loss
                == ConnectionLoss::Reset,
            QuicTransportError::Read(ReadFault::ConnectionLost(loss)) => loss
                == ConnectionLoss::TimedOut || loss == ConnectionLoss::Reset,
            QuicTransportError::Write(WriteFault::ConnectionLost(loss)) => loss
                == ConnectionLoss::TimedOut || loss == ConnectionLoss::Reset,
            _ => false,
        }
    }

    /// Whether the connection is closed on this inbound error.
    pub fn closes_connection(&self) -> (closes: bool)
        ensures
            closes == (*self == QuicTransportError::Read(ReadFault::FinishedEarly)),
    {
        matches!(*self, QuicTransportError::Read(ReadFault::FinishedEarly))
    }
}

/// The verdict on a media DATAGRAM before the connection sees it: an error, a
/// lossy outcome, or `None` to hand it over.
pub open spec fn media_admission(
    embedded_expiry_ns: Result<u64, ProtocolError>,
    datagram_len: usize,
    now_ns: u64,
    expires_at_ns: u64,
    max_datagram_size: Option<usize>,
) -> Result<Option<MediaSendOutcome>, QuicTransportError> {
    match embedded_expiry_ns {
        Err(error) => Err(QuicTransportError::Protocol(error)),
        Ok(actual) => if actual != expires_at_ns {
            Err(QuicTransportError::ExpiryMismatch { expected: expires_at_ns, actual })
        } else if expires_at_ns <= now_ns {
            Ok(Some(MediaSendOutcome::DroppedExpired))
        } else {
            match max_datagram_size {
                None => Ok(Some(MediaSendOutcome::Unsupported)),
                Some(limit) => if datagram_len > limit {
                    Ok(Some(MediaSendOutcome::DroppedTooLarge))
                } else {
                    Ok(None)
                },
            }
        },
    }
}

/// Validates a complete media DATAGRAM before the connection accepts it. The
/// caller's deadline is authoritative for local scheduling, while the embedded
/// deadline remains part of the authenticated protocol record. Expired and
/// over-path-MTU media are intentional lossy outcomes.
pub fn admit_media(
    embedded_expiry_ns: Result<u64, ProtocolError>,
    datagram_len: usize,
    now_ns: u64,
    expires_at_ns: u64,
    max_datagram_size: Option<usize>,
) -> (result: Result<Option<MediaSendOutcome>, QuicTransportError>)
    ensures
        result == media_admission(
            embedded_expiry_ns,
            datagram_len,
            now_ns,
            expires_at_ns,
            max_datagram_size,
        ),
{
    let actual: u64 = match embedded_expiry_ns {
        Ok(actual) => actual,
        Err(error) => return Err(QuicTransportError::Protocol(error)),
    };
    if actual != expires_at_ns {
        return Err(QuicTransportError::ExpiryMismatch { expected: expires_at_ns, actual });
    }
    if expires_at_ns <= now_ns {
        return Ok(Some(MediaSendOutcome::DroppedExpired));
    }
    match max_datagram_size {
        None => Ok(Some(MediaSendOutcome::Unsupported)),
        Some(limit) => {
            if datagram_len > limit {
                return Ok(Some(MediaSendOutcome::DroppedTooLarge));
            }
            Ok(None)
        },
    }
}

/// What the connection's verdict on a DATAGRAM means for media.
pub fn media_outcome(verdict: DatagramVerdict) -> (result: Result<
    MediaSendOutcome,
    QuicTransportError,
>)
    ensures
        result == (match verdict {
            DatagramVerdict::Accepted => Ok::<MediaSendOutcome, QuicTransportError>(
                MediaSendOutcome::Sent,
            ),
            DatagramVerdict::UnsupportedByPeer => Ok::<MediaSendOutcome, QuicTransportError>(
                MediaSendOutcome::Unsupported,
            ),
            DatagramVerdict::Disabled => Ok::<MediaSendOutcome, QuicTransportError>(
                MediaSendOutcome::Unsupported,
            ),
            DatagramVerdict::TooLarge => Ok::<MediaSendOutcome, QuicTransportError>(
                MediaSendOutcome::DroppedTooLarge,
            ),
            DatagramVerdict::ConnectionLost(loss) => Err::<MediaSendOutcome, QuicTransportError>(
                QuicTransportError::Connection(loss),
            ),
        }),
{
    match verdict {
        DatagramVerdict::Accepted => Ok(MediaSendOutcome::Sent),
        DatagramVerdict::UnsupportedByPeer => Ok(MediaSendOutcome::Unsupported),
        DatagramVerdict::Disabled => Ok(MediaSendOutcome::Unsupported),
        DatagramVerdict::TooLarge => Ok(MediaSendOutcome::DroppedTooLarge),
        DatagramVerdict::ConnectionLost(loss) => Err(QuicTransportError::Connection(loss)),
    }
}

/// Which inbound lanes the peer has opened.
#[derive(Debug, PartialEq, Eq, Structural)]
pub struct InboundLanes {
    pub control: bool,
    pub input: bool,
}

impl Default for InboundLanes {
    fn default() -> (lanes: Self)
        ensures
            !lanes.control,
            !lanes.input,
    {
        InboundLanes { control: false, input: false }
    }
}

impl InboundLanes {
    /// The peer has opened this lane.
    pub open spec fn has(self, kind: StreamKind) -> bool {
        match kind {
            StreamKind::Control => self.control,
            StreamKind::Input => self.input,
        }
    }

    /// Admits the first instance of each lane and no second one.
    pub fn open_lane(&mut self, kind: StreamKind) -> (result: Result<(), QuicTransportError>)
        ensures
            final(self).has(kind),
            forall|other: StreamKind| #[trigger]
                final(self).has(other) == (old(self).has(other) || other == kind),
            result == (if old(self).has(kind) {
                Err::<(), QuicTransportError>(QuicTransportError::DuplicateInboundLane(kind))
            } else {
                Ok::<(), QuicTransportError>(())
            }),
    {
        let duplicate: bool = match kind {
            StreamKind::Control => {
                let was: bool = self.control;
                self.control = true;
                was
            },
            StreamKind::Input => {
                let was: bool = self.input;
                self.input = true;
                was
            },
        };
        if duplicate {
            return Err(QuicTransportError::DuplicateInboundLane(kind));
        }
        Ok(())
    }
}

/// Whether a record that arrived on a lane may be taken, and whether the
/// connection must be closed instead.
pub fn check_record_kind(lane: StreamKind, record: Result<StreamKind, QuicTransportError>) -> (
decision: (Result<(), QuicTransportError>, bool))
    ensures
        decision == (match record {
            Ok(kind) => if kind == lane {
                (Ok::<(), QuicTransportError>(()), false)
            } else {
                (
                    Err::<(), QuicTransportError>(
                        QuicTransportError::StreamKindChanged { expected: lane, actual: kind },
                    ),
                    true,
                )
            },
            Err(error) => (Err::<(), QuicTransportError>(error), error is Protocol),
        }),
{
    match record {
        Ok(kind) => {
            if kind == lane {
                (Ok(()), false)
            } else {
                (Err(QuicTransportError::StreamKindChanged { expected: lane, actual: kind }), true)
            }
        },
        Err(error) => {
            let close: bool = matches!(error, QuicTransportError::Protocol(_));
            (Err(error), close)
        },
    }
}

/// Media that the connection is asked to send is never expired and always fits
/// the path.
pub proof fn law_only_live_fitting_media_is_sent(
    embedded_expiry_ns: Result<u64, ProtocolError>,
    datagram_len: usize,
    now_ns: u64,
    expires_at_ns: u64,
    max_datagram_size: Option<usize>,
)
    requires
        media_admission(
            embedded_expiry_ns,
            datagram_len,
            now_ns,
            expires_at_ns,
            max_datagram_size,
        ) == Ok::<Option<MediaSendOutcome>, QuicTransportError>(None),
    ensures
        now_ns < expires_at_ns,
        embedded_expiry_ns == Ok::<u64, ProtocolError>(expires_at_ns),
        max_datagram_size is Some,
        datagram_len <= max_datagram_size->Some_0,
{
}

} // verus!
