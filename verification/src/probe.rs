//! Decisions of a short-lived, isolated QUIC probe that validates an ICE
//! nominated path.
//!
//! The probe owns a fresh handed-off UDP socket and never touches the product
//! control session. Its transcript is carried as ordinary authenticated control
//! records.

use crate::address::SocketAddress;
use crate::bytes::{
    digest_is_zero, digests_equal, is_zero_digest, nonces_equal,
};
use crate::control::{ControlKind, ReceivedControl, SessionStamp, StreamKind};
use crate::entropy::random_bytes;
use crate::error::ProtocolError;
use crate::ice::IceRole;
use crate::ice_run::NominatedPath;
use crate::identity::IdentityError;
use crate::product::{is_zero_nonce, nonce_is_zero};
use crate::quic::QuicTransportError;
use vstd::prelude::*;

verus! {

/// Longest probe unless the caller says otherwise, in nanoseconds.
pub const DEFAULT_PROBE_TIMEOUT_NS: u64 = 2_000_000_000;

/// Bytes of a probe's control record.
pub const MAX_PROBE_PAYLOAD: usize = 256;

/// Application error code for a failed probe.
pub const PROBE_ERROR: u32 = 0x120;

/// Draws of random bytes before a probe gives up.
pub const MAX_PROBE_DRAWS: u32 = 3;

/// A step of the probe's transcript.
#[derive(Debug, Clone, Copy, PartialEq, Eq, Structural)]
pub enum IceProbeStage {
    EchoRequest,
    EchoResponse,
    Complete,
}

/// One record of the probe's transcript.
#[derive(Debug, Clone, Copy, PartialEq, Eq)]
pub struct IceProbeMessage {
    pub stage: IceProbeStage,
    pub ice_generation: u32,
    pub stamp: SessionStamp,
    pub client_nonce: [u8; 16],
    pub host_nonce: [u8; 16],
    pub challenge: [u8; 32],
}

/// What a transcript breaks on.
#[derive(Debug, Clone, Copy, PartialEq, Eq, Structural)]
pub enum TranscriptFault {
    ServerRoleIsNotControlled,
    ClientRoleIsNotControlling,
    InvalidSocket,
    ZeroNonce,
    RequestBinding,
    NonceBinding,
    ResponseBinding,
    CompletionBinding,
    FinalCompletionBinding,
    PayloadExceedsBound,
    WrongLane,
    WrongControlBinding,
    OuterStampBinding,
}

/// Why a probe fails.
#[derive(Debug, Clone, Copy, PartialEq, Eq, Structural)]
pub enum IceProbeError {
    InvalidRemote { expected: SocketAddress, actual: SocketAddress },
    Timeout,
    Identity(IdentityError),
    Quic(QuicTransportError),
    Protocol(ProtocolError),
    Transcript(TranscriptFault),
    Entropy,
    CleanupTimeout,
}

/// A validated path.
#[derive(Debug, Clone, Copy, PartialEq, Eq, Structural)]
pub struct IceProbeReport {
    pub local: SocketAddress,
    pub remote: SocketAddress,
    pub elapsed_ns: u64,
}

// ---------------------------------------------------------------------------
// Nonces
// ---------------------------------------------------------------------------
/// The nonce that random bytes give, unless all are zero.
pub fn nonce_from_bytes(bytes: &[u8]) -> (nonce: Option<[u8; 16]>)
    requires
        bytes@.len() == 16,
    ensures
        match nonce {
            Some(nonce) => nonce@ == bytes@ && !is_zero_nonce(nonce),
            None => forall|i: int| 0 <= i < 16 ==> #[trigger] bytes@[i] == 0,
        },
{
    let mut nonce: [u8; 16] = [0u8;16];
    let mut index: usize = 0;
    while index < 16
        invariant
            index <= 16,
            bytes@.len() == 16,
            forall|i: int| 0 <= i < index ==> #[trigger] nonce@[i] == bytes@[i],
        decreases 16 - index,
    {
        nonce[index] = bytes[index];
        index += 1;
    }
    proof {
        assert(nonce@ =~= bytes@);
    }
    if nonce_is_zero(&nonce) {
        None
    } else {
        Some(nonce)
    }
}

/// The challenge that random bytes give, unless all are zero.
pub fn challenge_from_bytes(bytes: &[u8]) -> (challenge: Option<[u8; 32]>)
    requires
        bytes@.len() == 32,
    ensures
        match challenge {
            Some(challenge) => challenge@ == bytes@ && !is_zero_digest(challenge),
            None => forall|i: int| 0 <= i < 32 ==> #[trigger] bytes@[i] == 0,
        },
{
    let mut challenge: [u8; 32] = [0u8;32];
    let mut index: usize = 0;
    while index < 32
        invariant
            index <= 32,
            bytes@.len() == 32,
            forall|i: int| 0 <= i < index ==> #[trigger] challenge@[i] == bytes@[i],
        decreases 32 - index,
    {
        challenge[index] = bytes[index];
        index += 1;
    }
    proof {
        assert(challenge@ =~= bytes@);
    }
    if digest_is_zero(&challenge) {
        None
    } else {
        Some(challenge)
    }
}

/// What a draw of a nonce leads to.
#[derive(Debug, Clone, Copy, PartialEq, Eq)]
pub enum NonceStep {
    Done([u8; 16]),
    Again,
    GiveUp,
}

/// What a draw of a challenge leads to.
#[derive(Debug, Clone, Copy, PartialEq, Eq)]
pub enum ChallengeStep {
    Done([u8; 32]),
    Again,
    GiveUp,
}

/// Judges one draw of a nonce that must not be all zero. `draw` counts from
/// zero, and `bytes` is what the operating system gave for it.
pub fn judge_nonce(draw: u32, bytes: &Option<Vec<u8>>) -> (step: NonceStep)
    requires
        draw < MAX_PROBE_DRAWS,
        bytes is Some ==> bytes->Some_0@.len() == 16,
    ensures
        match step {
            NonceStep::Done(nonce) => bytes is Some && nonce@ == bytes->Some_0@ && !is_zero_nonce(nonce),
            NonceStep::Again => bytes is Some && bytes->Some_0@ == Seq::new(16, |i: int| 0u8)
                && draw + 1 < MAX_PROBE_DRAWS,
            NonceStep::GiveUp => bytes is None || (bytes->Some_0@ == Seq::new(16, |i: int| 0u8)
                && draw + 1 == MAX_PROBE_DRAWS),
        },
{
    match bytes {
        None => NonceStep::GiveUp,
        Some(bytes) => match nonce_from_bytes(bytes) {
            Some(nonce) => NonceStep::Done(nonce),
            None => {
                if draw + 1 < MAX_PROBE_DRAWS {
                    NonceStep::Again
                } else {
                    NonceStep::GiveUp
                }
            },
        },
    }
}

/// Generates a fresh nonce for the authenticated control-session barrier.
pub fn generate_control_nonce() -> (result: Result<[u8; 16], IceProbeError>)
    ensures
        match result {
            Ok(nonce) => !is_zero_nonce(nonce),
            Err(error) => error == IceProbeError::Entropy,
        },
{
    let mut draw: u32 = 0;
    while draw < MAX_PROBE_DRAWS
        invariant
            draw <= MAX_PROBE_DRAWS,
        decreases MAX_PROBE_DRAWS - draw,
    {
        let bytes: Option<Vec<u8>> = random_bytes(16);
        match judge_nonce(draw, &bytes) {
            NonceStep::Done(nonce) => return Ok(nonce),
            NonceStep::Again => {},
            NonceStep::GiveUp => return Err(IceProbeError::Entropy),
        }
        draw += 1;
    }
    Err(IceProbeError::Entropy)
}

/// Judges one draw of a challenge that must not be all zero. `draw` counts from
/// zero, and `bytes` is what the operating system gave for it.
pub fn judge_challenge(draw: u32, bytes: &Option<Vec<u8>>) -> (step: ChallengeStep)
    requires
        draw < MAX_PROBE_DRAWS,
        bytes is Some ==> bytes->Some_0@.len() == 32,
    ensures
        match step {
            ChallengeStep::Done(challenge) => bytes is Some && challenge@ == bytes->Some_0@ && !is_zero_digest(challenge),
            ChallengeStep::Again => bytes is Some && bytes->Some_0@ == Seq::new(32, |i: int| 0u8)
                && draw + 1 < MAX_PROBE_DRAWS,
            ChallengeStep::GiveUp => bytes is None || (bytes->Some_0@ == Seq::new(32, |i: int| 0u8)
                && draw + 1 == MAX_PROBE_DRAWS),
        },
{
    match bytes {
        None => ChallengeStep::GiveUp,
        Some(bytes) => match challenge_from_bytes(bytes) {
            Some(challenge) => ChallengeStep::Done(challenge),
            None => {
                if draw + 1 < MAX_PROBE_DRAWS {
                    ChallengeStep::Again
                } else {
                    ChallengeStep::GiveUp
                }
            },
        },
    }
}

/// Generates a fresh challenge.
pub fn generate_challenge() -> (result: Result<[u8; 32], IceProbeError>)
    ensures
        match result {
            Ok(challenge) => !is_zero_digest(challenge),
            Err(error) => error == IceProbeError::Entropy,
        },
{
    let mut draw: u32 = 0;
    while draw < MAX_PROBE_DRAWS
        invariant
            draw <= MAX_PROBE_DRAWS,
        decreases MAX_PROBE_DRAWS - draw,
    {
        let bytes: Option<Vec<u8>> = random_bytes(32);
        match judge_challenge(draw, &bytes) {
            ChallengeStep::Done(challenge) => return Ok(challenge),
            ChallengeStep::Again => {},
            ChallengeStep::GiveUp => return Err(IceProbeError::Entropy),
        }
        draw += 1;
    }
    Err(IceProbeError::Entropy)
}

// ---------------------------------------------------------------------------
// Before the probe
// ---------------------------------------------------------------------------
/// Why a server cannot probe a path.
pub open spec fn server_fault(
    timeout_ns: u64,
    role: IceRole,
    local: Option<SocketAddress>,
    path: NominatedPath,
) -> Option<IceProbeError> {
    if timeout_ns == 0 {
        Some(IceProbeError::Timeout)
    } else if role != IceRole::Controlled {
        Some(IceProbeError::Transcript(TranscriptFault::ServerRoleIsNotControlled))
    } else {
        match local {
            None => Some(IceProbeError::Transcript(TranscriptFault::InvalidSocket)),
            Some(local) => if path.source != local {
                Some(IceProbeError::InvalidRemote { expected: local, actual: path.source })
            } else {
                None
            },
        }
    }
}

/// Decides whether a server may probe a path on its own socket, and which
/// remote address it then waits for. `local` is the socket's address, if it
/// has one.
pub fn prepare_server(
    timeout_ns: u64,
    role: IceRole,
    local: Option<SocketAddress>,
    path: NominatedPath,
) -> (result: Result<SocketAddress, IceProbeError>)
    ensures
        result == (match server_fault(timeout_ns, role, local, path) {
            Some(error) => Err::<SocketAddress, IceProbeError>(error),
            None => Ok::<SocketAddress, IceProbeError>(path.destination),
        }),
{
    if timeout_ns == 0 {
        return Err(IceProbeError::Timeout);
    }
    if role != IceRole::Controlled {
        return Err(IceProbeError::Transcript(TranscriptFault::ServerRoleIsNotControlled));
    }
    let local: SocketAddress = match local {
        Some(local) => local,
        None => return Err(IceProbeError::Transcript(TranscriptFault::InvalidSocket)),
    };
    if path.source != local {
        return Err(IceProbeError::InvalidRemote { expected: local, actual: path.source });
    }
    Ok(path.destination)
}

/// Why a client cannot probe a path.
pub open spec fn client_fault(
    timeout_ns: u64,
    role: IceRole,
    client_nonce: [u8; 16],
    host_nonce: [u8; 16],
    local: Option<SocketAddress>,
    path: NominatedPath,
    expected_remote: SocketAddress,
) -> Option<IceProbeError> {
    if timeout_ns == 0 {
        Some(IceProbeError::Timeout)
    } else if role != IceRole::Controlling {
        Some(IceProbeError::Transcript(TranscriptFault::ClientRoleIsNotControlling))
    } else if is_zero_nonce(client_nonce) || is_zero_nonce(host_nonce) {
        Some(IceProbeError::Transcript(TranscriptFault::ZeroNonce))
    } else {
        match local {
            None => Some(IceProbeError::Transcript(TranscriptFault::InvalidSocket)),
            Some(local) => if path.source != local {
                Some(IceProbeError::InvalidRemote { expected: local, actual: path.source })
            } else if path.destination != expected_remote {
                Some(
                    IceProbeError::InvalidRemote {
                        expected: expected_remote,
                        actual: path.destination,
                    },
                )
            } else {
                None
            },
        }
    }
}

/// Decides whether a client may probe a path.
pub fn prepare_client(
    timeout_ns: u64,
    role: IceRole,
    client_nonce: [u8; 16],
    host_nonce: [u8; 16],
    local: Option<SocketAddress>,
    path: NominatedPath,
    expected_remote: SocketAddress,
) -> (result: Result<(), IceProbeError>)
    ensures
        result == (match client_fault(
            timeout_ns,
            role,
            client_nonce,
            host_nonce,
            local,
            path,
            expected_remote,
        ) {
            Some(error) => Err::<(), IceProbeError>(error),
            None => Ok::<(), IceProbeError>(()),
        }),
{
    if timeout_ns == 0 {
        return Err(IceProbeError::Timeout);
    }
    if role != IceRole::Controlling {
        return Err(IceProbeError::Transcript(TranscriptFault::ClientRoleIsNotControlling));
    }
    if nonce_is_zero(&client_nonce) || nonce_is_zero(&host_nonce) {
        return Err(IceProbeError::Transcript(TranscriptFault::ZeroNonce));
    }
    let local: SocketAddress = match local {
        Some(local) => local,
        None => return Err(IceProbeError::Transcript(TranscriptFault::InvalidSocket)),
    };
    if path.source != local {
        return Err(IceProbeError::InvalidRemote { expected: local, actual: path.source });
    }
    if path.destination != expected_remote {
        return Err(
            IceProbeError::InvalidRemote { expected: expected_remote, actual: path.destination },
        );
    }
    Ok(())
}

/// Accepts a connection from the nominated remote address.
pub fn check_remote(nominated: SocketAddress, actual: SocketAddress) -> (result: Result<
    (),
    IceProbeError,
>)
    ensures
        result == (if actual == nominated {
            Ok::<(), IceProbeError>(())
        } else {
            Err::<(), IceProbeError>(IceProbeError::InvalidRemote { expected: nominated, actual })
        }),
{
    if actual != nominated {
        return Err(IceProbeError::InvalidRemote { expected: nominated, actual });
    }
    Ok(())
}

// ---------------------------------------------------------------------------
// The transcript
// ---------------------------------------------------------------------------
/// Accepts a control record that fits a probe.
pub fn check_probe_payload(len: usize) -> (result: Result<(), IceProbeError>)
    ensures
        result == (if len > MAX_PROBE_PAYLOAD {
            Err::<(), IceProbeError>(
                IceProbeError::Transcript(TranscriptFault::PayloadExceedsBound),
            )
        } else {
            Ok::<(), IceProbeError>(())
        }),
{
    if len > MAX_PROBE_PAYLOAD {
        return Err(IceProbeError::Transcript(TranscriptFault::PayloadExceedsBound));
    }
    Ok(())
}

/// Why a received record is no probe record.
pub open spec fn decode_fault(
    lane: StreamKind,
    stamp: SessionStamp,
    packet: Result<ReceivedControl<IceProbeMessage>, ProtocolError>,
) -> Option<IceProbeError> {
    if lane != StreamKind::Control {
        Some(IceProbeError::Transcript(TranscriptFault::WrongLane))
    } else {
        match packet {
            Err(error) => Some(IceProbeError::Protocol(error)),
            Ok(packet) => if packet.kind != ControlKind::IceProbe || packet.session_id
                != stamp.session_id {
                Some(IceProbeError::Transcript(TranscriptFault::WrongControlBinding))
            } else {
                match packet.body {
                    Err(error) => Some(IceProbeError::Protocol(error)),
                    Ok(message) => if message.stamp != stamp {
                        Some(IceProbeError::Transcript(TranscriptFault::OuterStampBinding))
                    } else {
                        None
                    },
                }
            },
        }
    }
}

/// Takes the probe record out of a received record.
pub fn decode_probe(
    lane: StreamKind,
    stamp: SessionStamp,
    packet: Result<ReceivedControl<IceProbeMessage>, ProtocolError>,
) -> (result: Result<IceProbeMessage, IceProbeError>)
    ensures
        match decode_fault(lane, stamp, packet) {
            Some(error) => result is Err && result->Err_0 == error,
            None => packet is Ok && packet->Ok_0.body is Ok && result is Ok && result->Ok_0
                == packet->Ok_0.body->Ok_0,
        },
{
    if lane != StreamKind::Control {
        return Err(IceProbeError::Transcript(TranscriptFault::WrongLane));
    }
    let packet = match packet {
        Ok(packet) => packet,
        Err(error) => return Err(IceProbeError::Protocol(error)),
    };
    if packet.kind != ControlKind::IceProbe || packet.session_id != stamp.session_id {
        return Err(IceProbeError::Transcript(TranscriptFault::WrongControlBinding));
    }
    let message: IceProbeMessage = match packet.body {
        Ok(message) => message,
        Err(error) => return Err(IceProbeError::Protocol(error)),
    };
    if message.stamp != stamp {
        return Err(IceProbeError::Transcript(TranscriptFault::OuterStampBinding));
    }
    Ok(message)
}

/// What both ends of a probe agreed on over the product session.
#[derive(Debug, Clone, Copy, PartialEq, Eq)]
pub struct ProbeTerms {
    pub stamp: SessionStamp,
    pub ice_generation: u32,
    pub client_nonce: [u8; 16],
    pub host_nonce: [u8; 16],
}

impl ProbeTerms {
    /// The record of one step.
    pub open spec fn record(self, stage: IceProbeStage, challenge: [u8; 32]) -> IceProbeMessage {
        IceProbeMessage {
            stage,
            ice_generation: self.ice_generation,
            stamp: self.stamp,
            client_nonce: self.client_nonce,
            host_nonce: self.host_nonce,
            challenge,
        }
    }

    /// Why a server refuses the request.
    pub open spec fn request_fault(self, request: IceProbeMessage) -> Option<IceProbeError> {
        if request.stage != IceProbeStage::EchoRequest || request.stamp != self.stamp
            || request.ice_generation != self.ice_generation {
            Some(IceProbeError::Transcript(TranscriptFault::RequestBinding))
        } else if is_zero_nonce(self.client_nonce) || is_zero_nonce(self.host_nonce)
            || request.client_nonce != self.client_nonce || request.host_nonce
            != self.host_nonce {
            Some(IceProbeError::Transcript(TranscriptFault::NonceBinding))
        } else {
            None
        }
    }

    /// The server's answer to a request.
    pub open spec fn responding(self, request: IceProbeMessage) -> Result<
        IceProbeMessage,
        IceProbeError,
    > {
        match self.request_fault(request) {
            Some(error) => Err(error),
            None => Ok(self.record(IceProbeStage::EchoResponse, request.challenge)),
        }
    }

    /// What one end makes of a record that must be exactly the one of `stage`:
    /// the completion, or the fault.
    pub open spec fn completing(
        self,
        record: IceProbeMessage,
        stage: IceProbeStage,
        challenge: [u8; 32],
        fault: TranscriptFault,
    ) -> Result<IceProbeMessage, IceProbeError> {
        if record == self.record(stage, challenge) {
            Ok(self.record(IceProbeStage::Complete, challenge))
        } else {
            Err(IceProbeError::Transcript(fault))
        }
    }

    /// What the client makes of the server's completion.
    pub open spec fn final_verdict(self, record: IceProbeMessage, challenge: [u8; 32]) -> Result<
        (),
        IceProbeError,
    > {
        if record == self.record(IceProbeStage::Complete, challenge) {
            Ok(())
        } else {
            Err(IceProbeError::Transcript(TranscriptFault::FinalCompletionBinding))
        }
    }

    /// The record of one step.
    pub fn message(&self, stage: IceProbeStage, challenge: [u8; 32]) -> (message: IceProbeMessage)
        ensures
            message == self.record(stage, challenge),
    {
        IceProbeMessage {
            stage,
            ice_generation: self.ice_generation,
            stamp: self.stamp,
            client_nonce: self.client_nonce,
            host_nonce: self.host_nonce,
            challenge,
        }
    }

    fn is_record(
        &self,
        message: &IceProbeMessage,
        stage: IceProbeStage,
        challenge: &[u8; 32],
    ) -> (result: bool)
        ensures
            result == (*message == self.record(stage, *challenge)),
    {
        message.stage == stage && message.stamp == self.stamp && message.ice_generation
            == self.ice_generation && nonces_equal(&message.client_nonce, &self.client_nonce)
            && nonces_equal(&message.host_nonce, &self.host_nonce) && digests_equal(
            &message.challenge,
            challenge,
        )
    }

    /// Takes the request on the server, and gives the response that repeats
    /// its challenge. On an error the connection is closed.
    pub fn answer_request(&self, request: &IceProbeMessage) -> (result: Result<
        IceProbeMessage,
        IceProbeError,
    >)
        ensures
            result == self.responding(*request),
    {
        if request.stage != IceProbeStage::EchoRequest || request.stamp != self.stamp
            || request.ice_generation != self.ice_generation {
            return Err(IceProbeError::Transcript(TranscriptFault::RequestBinding));
        }
        if nonce_is_zero(&self.client_nonce) || nonce_is_zero(&self.host_nonce) || !nonces_equal(
            &request.client_nonce,
            &self.client_nonce,
        ) || !nonces_equal(&request.host_nonce, &self.host_nonce) {
            return Err(IceProbeError::Transcript(TranscriptFault::NonceBinding));
        }
        Ok(self.message(IceProbeStage::EchoResponse, request.challenge))
    }

    /// Takes the completion on the server, and gives its own. On an error the
    /// connection is closed.
    pub fn answer_completion(&self, completion: &IceProbeMessage, challenge: [u8; 32]) -> (result:
        Result<IceProbeMessage, IceProbeError>)
        ensures
            result == self.completing(
                *completion,
                IceProbeStage::Complete,
                challenge,
                TranscriptFault::CompletionBinding,
            ),
    {
        if !self.is_record(completion, IceProbeStage::Complete, &challenge) {
            return Err(IceProbeError::Transcript(TranscriptFault::CompletionBinding));
        }
        Ok(self.message(IceProbeStage::Complete, challenge))
    }

    /// Takes the response on the client, and gives the completion.
    pub fn answer_response(&self, response: &IceProbeMessage, challenge: [u8; 32]) -> (result:
        Result<IceProbeMessage, IceProbeError>)
        ensures
            result == self.completing(
                *response,
                IceProbeStage::EchoResponse,
                challenge,
                TranscriptFault::ResponseBinding,
            ),
    {
        if !self.is_record(response, IceProbeStage::EchoResponse, &challenge) {
            return Err(IceProbeError::Transcript(TranscriptFault::ResponseBinding));
        }
        Ok(self.message(IceProbeStage::Complete, challenge))
    }

    /// Takes the server's completion on the client: the path is validated.
    pub fn check_final(&self, completion: &IceProbeMessage, challenge: [u8; 32]) -> (result: Result<
        (),
        IceProbeError,
    >)
        ensures
            result == self.final_verdict(*completion, challenge),
    {
        if !self.is_record(completion, IceProbeStage::Complete, &challenge) {
            return Err(IceProbeError::Transcript(TranscriptFault::FinalCompletionBinding));
        }
        Ok(())
    }
}

/// Joins the result of a probe, if it came in time, with whether the endpoint
/// went idle: an endpoint that does not comes first.
pub fn judge_probe(outcome: Option<Result<IceProbeReport, IceProbeError>>, cleaned_up: bool) -> (
result: Result<IceProbeReport, IceProbeError>)
    ensures
        result == (if !cleaned_up {
            Err::<IceProbeReport, IceProbeError>(IceProbeError::CleanupTimeout)
        } else {
            match outcome {
                Some(result) => result,
                None => Err::<IceProbeReport, IceProbeError>(IceProbeError::Timeout),
            }
        }),
{
    if !cleaned_up {
        return Err(IceProbeError::CleanupTimeout);
    }
    match outcome {
        Some(result) => result,
        None => Err(IceProbeError::Timeout),
    }
}

/// Two ends with the same terms complete the whole transcript, whatever the
/// client's challenge is.
pub proof fn law_same_terms_complete_the_probe(terms: ProbeTerms, challenge: [u8; 32])
    requires
        !is_zero_nonce(terms.client_nonce),
        !is_zero_nonce(terms.host_nonce),
    ensures
        ({
            let request = terms.record(IceProbeStage::EchoRequest, challenge);
            let response = terms.responding(request);
            let completion = terms.completing(
                response->Ok_0,
                IceProbeStage::EchoResponse,
                challenge,
                TranscriptFault::ResponseBinding,
            );
            let answer = terms.completing(
                completion->Ok_0,
                IceProbeStage::Complete,
                request.challenge,
                TranscriptFault::CompletionBinding,
            );
            &&& response is Ok
            &&& completion is Ok
            &&& answer is Ok
            &&& terms.final_verdict(answer->Ok_0, challenge) == Ok::<(), IceProbeError>(())
        }),
{
}

/// A record made under other terms is refused at every step.
pub proof fn law_other_terms_are_refused(
    terms: ProbeTerms,
    other: ProbeTerms,
    challenge: [u8; 32],
    stage: IceProbeStage,
    fault: TranscriptFault,
)
    requires
        terms != other,
    ensures
        terms.responding(other.record(IceProbeStage::EchoRequest, challenge)) is Err,
        terms.completing(other.record(stage, challenge), stage, challenge, fault) == Err::<
            IceProbeMessage,
            IceProbeError,
        >(IceProbeError::Transcript(fault)),
        terms.final_verdict(other.record(IceProbeStage::Complete, challenge), challenge) is Err,
{
}

} // verus!
