//! Decisions of a bounded ICE connectivity-check adapter.
//!
//! The adapter owns no socket and no agent. Callers feed received datagrams to
//! the agent only after the checks here, and send only what they let through.

use crate::address::{IpAddress, SocketAddress};
use crate::entropy::{random_bytes, random_nonzero_u64, wipe_bytes, wipe_text};
use crate::product::{IceCredentialExchange, IceCredentialRole};
use vstd::prelude::*;
use vstd::string::*;

verus! {

pub const MAX_ICE_CANDIDATES: usize = 8;

pub const MAX_ICE_PAIRS: usize = 64;

pub const MAX_ICE_DATAGRAM_BYTES: usize = 2_048;

pub const MAX_ICE_IGNORED_DATAGRAMS: usize = 32;

/// Characters of a generated user fragment.
pub const ICE_UFRAG_LEN: usize = 16;

/// Characters of a generated password.
pub const ICE_PASSWORD_LEN: usize = 32;

/// Which side of ICE this end plays.
#[derive(Debug, Clone, Copy, PartialEq, Eq, Structural)]
pub enum IceRole {
    Controlling,
    Controlled,
}

impl IceRole {
    /// The signaled role as an ICE role.
    pub open spec fn of(role: IceCredentialRole) -> IceRole {
        match role {
            IceCredentialRole::Controlling => IceRole::Controlling,
            IceCredentialRole::Controlled => IceRole::Controlled,
        }
    }

    /// The role that a signaled role stands for.
    pub fn from_signaling(role: IceCredentialRole) -> (result: IceRole)
        ensures
            result == IceRole::of(role),
    {
        match role {
            IceCredentialRole::Controlling => IceRole::Controlling,
            IceCredentialRole::Controlled => IceRole::Controlled,
        }
    }

    /// The role to signal.
    pub fn to_signaling(self) -> (role: IceCredentialRole)
        ensures
            IceRole::of(role) == self,
    {
        match self {
            IceRole::Controlling => IceCredentialRole::Controlling,
            IceRole::Controlled => IceCredentialRole::Controlled,
        }
    }
}

/// Why an ICE operation is refused.
#[derive(Debug, Clone, Copy, PartialEq, Eq, Structural)]
pub enum IceError {
    InvalidConfig,
    InvalidCredentials,
    EntropyUnavailable,
    CandidateLimit,
    DuplicateCandidate,
    MixedAddressFamily,
    UnsupportedCandidate,
    RemoteCredentialsChanged,
    InvalidDatagram,
    UnexpectedDatagramDestination,
    OversizedTransmit(usize),
    AgentInvariant,
    EstablishmentDeadlineExceeded,
    Cancelled,
    Io,
    IgnoredDatagramLimit,
    TrafficLimit,
    InvalidProbeCandidateSet,
    WorkerFailed,
    WorkerTimeout,
    Agent,
}

// ---------------------------------------------------------------------------
// Candidates
// ---------------------------------------------------------------------------
#[derive(Debug, Clone, Copy, PartialEq, Eq, Hash, Structural)]
pub enum IceCandidateKind {
    Host,
    ServerReflexive,
}

/// An address that a peer can be tried at.
#[derive(Debug, Clone, Copy, PartialEq, Eq, Hash, Structural)]
pub struct IceCandidate {
    pub address: SocketAddress,
    pub base: SocketAddress,
    pub kind: IceCandidateKind,
}

/// What a signaled candidate says of its address.
#[derive(Debug, Clone, Copy, PartialEq, Eq, Structural)]
pub enum CandidateType {
    Host,
    ServerReflexive,
    /// Any other type, by its wire number.
    Other(u8),
}

/// A candidate as it is signaled.
#[derive(Debug, Clone, Copy, PartialEq, Eq)]
pub struct SignaledCandidate {
    pub component: u16,
    pub is_udp: bool,
    pub candidate_type: CandidateType,
    pub ip: IpAddress,
    pub port: u16,
    pub related_address: Option<(IpAddress, u16)>,
    /// Whether the wire codec found the record sound.
    pub is_sound: bool,
}

impl SignaledCandidate {
    /// The candidate that the record stands for, if it is of a known kind.
    pub open spec fn meant(self) -> Option<IceCandidate> {
        let address = SocketAddress::at(self.ip, self.port);
        if !self.is_sound || !self.is_udp || self.component != 1 {
            None
        } else {
            match (self.candidate_type, self.related_address) {
                (CandidateType::Host, None) => Some(
                    IceCandidate { address, base: address, kind: IceCandidateKind::Host },
                ),
                (CandidateType::ServerReflexive, Some((ip, port))) => Some(
                    IceCandidate {
                        address,
                        base: SocketAddress::at(ip, port),
                        kind: IceCandidateKind::ServerReflexive,
                    },
                ),
                _ => None,
            }
        }
    }
}

impl IceCandidate {
    /// Both addresses are usable and of one version, and they differ exactly
    /// when a server reflected the address.
    pub open spec fn is_supported(self) -> bool {
        &&& self.address.usable()
        &&& self.base.usable()
        &&& self.address.same_family(self.base)
        &&& self.kind == IceCandidateKind::Host <==> self.address == self.base
    }

    /// A supported IPv4 host candidate.
    pub open spec fn is_probe(self) -> bool {
        self.is_supported() && self.kind == IceCandidateKind::Host && self.address.ip is V4
    }

    /// A candidate of the host itself.
    pub fn host(address: SocketAddress) -> (candidate: IceCandidate)
        ensures
            candidate == (IceCandidate { address, base: address, kind: IceCandidateKind::Host }),
    {
        IceCandidate { address, base: address, kind: IceCandidateKind::Host }
    }

    /// A candidate that a server saw for `base`.
    pub fn server_reflexive(address: SocketAddress, base: SocketAddress) -> (candidate:
        IceCandidate)
        ensures
            candidate == (IceCandidate { address, base, kind: IceCandidateKind::ServerReflexive }),
    {
        IceCandidate { address, base, kind: IceCandidateKind::ServerReflexive }
    }

    /// Accepts supported candidates.
    pub fn validate(self) -> (result: Result<(), IceError>)
        ensures
            result == (if self.is_supported() {
                Ok::<(), IceError>(())
            } else {
                Err::<(), IceError>(IceError::UnsupportedCandidate)
            }),
    {
        if !self.address.is_usable_address() || !self.base.is_usable_address()
            || self.address.is_ipv4() != self.base.is_ipv4() || (self.kind
            == IceCandidateKind::Host && self.address != self.base) || (self.kind
            == IceCandidateKind::ServerReflexive && self.address == self.base) {
            return Err(IceError::UnsupportedCandidate);
        }
        Ok(())
    }

    /// Converts a signaled candidate.
    pub fn from_protocol(candidate: SignaledCandidate) -> (result: Result<IceCandidate, IceError>)
        ensures
            match candidate.meant() {
                Some(meant) => if meant.is_supported() {
                    result == Ok::<IceCandidate, IceError>(meant)
                } else {
                    result == Err::<IceCandidate, IceError>(IceError::UnsupportedCandidate)
                },
                None => result == Err::<IceCandidate, IceError>(IceError::UnsupportedCandidate),
            },
    {
        if !candidate.is_sound || !candidate.is_udp || candidate.component != 1 {
            return Err(IceError::UnsupportedCandidate);
        }
        let address: SocketAddress = SocketAddress::new(candidate.ip, candidate.port);
        let converted: IceCandidate = match (candidate.candidate_type, candidate.related_address) {
            (CandidateType::Host, None) => IceCandidate::host(address),
            (CandidateType::ServerReflexive, Some((ip, port))) => IceCandidate::server_reflexive(
                address,
                SocketAddress::new(ip, port),
            ),
            _ => return Err(IceError::UnsupportedCandidate),
        };
        match converted.validate() {
            Ok(()) => Ok(converted),
            Err(error) => Err(error),
        }
    }

    /// Converts a candidate of the first probe profile: one UDP component-1
    /// IPv4 host candidate.
    pub fn from_probe_protocol(candidate: SignaledCandidate) -> (result: Result<
        IceCandidate,
        IceError,
    >)
        ensures
            match candidate.meant() {
                Some(meant) => if meant.is_probe() {
                    result == Ok::<IceCandidate, IceError>(meant)
                } else {
                    result == Err::<IceCandidate, IceError>(IceError::UnsupportedCandidate)
                },
                None => result == Err::<IceCandidate, IceError>(IceError::UnsupportedCandidate),
            },
    {
        match IceCandidate::from_protocol(candidate) {
            Err(error) => Err(error),
            Ok(converted) => {
                if converted.kind != IceCandidateKind::Host || !converted.address.is_ipv4() {
                    return Err(IceError::UnsupportedCandidate);
                }
                Ok(converted)
            },
        }
    }

    /// Validates the first probe profile's entire remote set: one IPv4 host
    /// candidate on the already-authenticated peer IP, but a fresh UDP port.
    pub fn probe_remote_from_exchange(
        candidates: &[SignaledCandidate],
        active_peer: SocketAddress,
    ) -> (result: Result<IceCandidate, IceError>)
        ensures
            result == probe_remote(candidates@, active_peer),
    {
        if candidates.len() != 1 || !active_peer.is_ipv4() {
            return Err(IceError::InvalidProbeCandidateSet);
        }
        let candidate: IceCandidate = match IceCandidate::from_probe_protocol(candidates[0]) {
            Ok(candidate) => candidate,
            Err(error) => return Err(error),
        };
        if candidate.address.ip != active_peer.ip || candidate.address == active_peer {
            return Err(IceError::InvalidProbeCandidateSet);
        }
        Ok(candidate)
    }
}

/// The remote candidate that a probe may use.
pub open spec fn probe_remote(
    candidates: Seq<SignaledCandidate>,
    active_peer: SocketAddress,
) -> Result<IceCandidate, IceError> {
    if candidates.len() != 1 || !(active_peer.ip is V4) {
        Err(IceError::InvalidProbeCandidateSet)
    } else {
        match candidates[0].meant() {
            None => Err(IceError::UnsupportedCandidate),
            Some(meant) => if !meant.is_probe() {
                Err(IceError::UnsupportedCandidate)
            } else if meant.address.ip != active_peer.ip || meant.address == active_peer {
                Err(IceError::InvalidProbeCandidateSet)
            } else {
                Ok(meant)
            },
        }
    }
}

// ---------------------------------------------------------------------------
// Credentials
// ---------------------------------------------------------------------------
/// A letter, a digit, `+` or `/`.
pub open spec fn ice_byte(byte: u8) -> bool {
    ||| 65 <= byte <= 90
    ||| 97 <= byte <= 122
    ||| 48 <= byte <= 57
    ||| byte == 43
    ||| byte == 47
}

/// An ASCII letter, a digit, `+` or `/`.
pub open spec fn ice_char(c: char) -> bool {
    (c as u32) < 128 && ice_byte(c as u8)
}

/// Only ICE characters.
pub open spec fn all_ice(text: Seq<char>) -> bool {
    forall|i: int| 0 <= i < text.len() ==> ice_char(#[trigger] text[i])
}

/// Credentials as mathematics sees them.
#[verifier::ext_equal]
pub struct CredentialsView {
    pub ufrag: Seq<char>,
    pub password: Seq<char>,
}

impl CredentialsView {
    /// Only ICE characters, and lengths that the standard allows.
    pub open spec fn is_valid(self) -> bool {
        &&& 4 <= self.ufrag.len() <= 256
        &&& 22 <= self.password.len() <= 256
        &&& all_ice(self.ufrag)
        &&& all_ice(self.password)
    }
}

/// The sixty-four ICE characters.
pub open spec fn ice_alphabet() -> Seq<char> {
    "ABCDEFGHIJKLMNOPQRSTUVWXYZabcdefghijklmnopqrstuvwxyz0123456789+/"@
}

/// Random bytes as ICE characters, six bits of each.
pub open spec fn ice_text(entropy: Seq<u8>) -> Seq<char> {
    Seq::new(entropy.len(), |i: int| ice_alphabet()[entropy[i] as int % 64])
}

proof fn lemma_alphabet(index: int)
    requires
        0 <= index < 64,
    ensures
        ice_alphabet().len() == 64,
        ice_char(ice_alphabet()[index]),
{
    reveal_strlit("ABCDEFGHIJKLMNOPQRSTUVWXYZabcdefghijklmnopqrstuvwxyz0123456789+/");
}

/// Whether a byte is an ICE character.
pub fn is_ice_char(byte: u8) -> (result: bool)
    ensures
        result == ice_byte(byte),
{
    (65 <= byte && byte <= 90) || (97 <= byte && byte <= 122) || (48 <= byte && byte <= 57) || byte
        == 43 || byte == 47
}

/// Writes random bytes as ICE characters.
pub fn encode_ice_entropy(entropy: &[u8]) -> (text: String)
    ensures
        text@ == ice_text(entropy@),
        all_ice(text@),
{
    let alphabet: &str = "ABCDEFGHIJKLMNOPQRSTUVWXYZabcdefghijklmnopqrstuvwxyz0123456789+/";
    let mut text: String = String::new();
    let mut index: usize = 0;
    while index < entropy.len()
        invariant
            index <= entropy@.len(),
            alphabet@ == ice_alphabet(),
            text@ =~= ice_text(entropy@.take(index as int)),
            all_ice(text@),
        decreases entropy@.len() - index,
    {
        let byte: u8 = entropy[index];
        let digit: usize = (byte % 64) as usize;
        proof {
            lemma_alphabet(digit as int);
            assert(entropy@.take(index + 1) =~= entropy@.take(index as int).push(byte));
        }
        let next: &str = alphabet.substring_char(digit, digit + 1);
        text.append(next);
        proof {
            assert(next@ =~= seq![ice_alphabet()[digit as int]]);
        }
        index += 1;
    }
    proof {
        assert(entropy@.take(entropy@.len() as int) =~= entropy@);
    }
    text
}

fn text_is_ice(text: &str, least: usize, most: usize) -> (result: bool)
    ensures
        result == (least <= text@.len() <= most && all_ice(text@)),
{
    let len: usize = text.unicode_len();
    if len < least || most < len {
        return false;
    }
    let mut index: usize = 0;
    while index < len
        invariant
            index <= len,
            len == text@.len(),
            forall|i: int| 0 <= i < index ==> ice_char(#[trigger] text@[i]),
        decreases len - index,
    {
        let code: u32 = text.get_char(index) as u32;
        if code >= 128 || !is_ice_char(code as u8) {
            return false;
        }
        index += 1;
    }
    true
}

/// Short-term ICE credentials. They have no debug output of their own.
#[derive(Clone, PartialEq, Eq)]
pub struct IceCredentials {
    ufrag: String,
    password: String,
}

/// The record that signals these credentials.
pub open spec fn signaled_by(
    credentials: CredentialsView,
    exchange_id: u64,
    generation: u32,
    role: IceRole,
    signaled: SignaledCredentials,
) -> bool {
    &&& signaled.exchange.exchange_id == exchange_id
    &&& signaled.exchange.generation == generation
    &&& IceRole::of(signaled.exchange.role) == role
    &&& signaled.ufrag@ == credentials.ufrag
    &&& signaled.password@ == credentials.password
}

/// What a signaled record is read as.
pub open spec fn read_as(signaled: SignaledCredentials) -> Result<CredentialsView, IceError> {
    let view = CredentialsView { ufrag: signaled.ufrag@, password: signaled.password@ };
    if view.is_valid() {
        Ok(view)
    } else {
        Err(IceError::InvalidCredentials)
    }
}

impl View for IceCredentials {
    type V = CredentialsView;

    closed spec fn view(&self) -> CredentialsView {
        CredentialsView { ufrag: self.ufrag@, password: self.password@ }
    }
}

/// Credentials are wiped when they are dropped.
impl Drop for IceCredentials {
    fn drop(&mut self)
        opens_invariants none
        no_unwind
    {
        wipe_text(&mut self.ufrag);
        wipe_text(&mut self.password);
    }
}

/// Credentials as they are signaled over the authenticated control lane.
#[derive(Clone, PartialEq, Eq)]
pub struct SignaledCredentials {
    pub exchange: IceCredentialExchange,
    pub ufrag: String,
    pub password: String,
}

impl IceCredentials {
    /// Fresh credentials from the operating system's randomness.
    pub fn generate() -> (result: Result<IceCredentials, IceError>)
        ensures
            match result {
                Ok(credentials) => {
                    &&& credentials@.is_valid()
                    &&& credentials@.ufrag.len() == ICE_UFRAG_LEN
                    &&& credentials@.password.len() == ICE_PASSWORD_LEN
                },
                Err(error) => error == IceError::EntropyUnavailable,
            },
    {
        let mut ufrag_entropy: Vec<u8> = match random_bytes(ICE_UFRAG_LEN) {
            Some(bytes) => bytes,
            None => return Err(IceError::EntropyUnavailable),
        };
        let mut password_entropy: Vec<u8> = match random_bytes(ICE_PASSWORD_LEN) {
            Some(bytes) => bytes,
            None => return Err(IceError::EntropyUnavailable),
        };
        let result = IceCredentials::from_entropy(&ufrag_entropy, &password_entropy);
        wipe_bytes(&mut ufrag_entropy);
        wipe_bytes(&mut password_entropy);
        result
    }

    /// Credentials that spell the given random bytes.
    pub fn from_entropy(ufrag_entropy: &[u8], password_entropy: &[u8]) -> (result: Result<
        IceCredentials,
        IceError,
    >)
        ensures
            ({
                let view = CredentialsView {
                    ufrag: ice_text(ufrag_entropy@),
                    password: ice_text(password_entropy@),
                };
                &&& result is Ok <==> 4 <= ufrag_entropy@.len() <= 256 && 22
                    <= password_entropy@.len() <= 256
                &&& result is Ok ==> result->Ok_0@ == view && view.is_valid()
                &&& result is Err ==> result->Err_0 == IceError::InvalidCredentials
            }),
    {
        let ufrag: String = encode_ice_entropy(ufrag_entropy);
        let password: String = encode_ice_entropy(password_entropy);
        IceCredentials::from_parts(ufrag, password)
    }

    /// Credentials with these parts, which are wiped if they are refused.
    pub fn from_parts(ufrag: String, password: String) -> (result: Result<IceCredentials, IceError>)
        ensures
            ({
                let view = CredentialsView { ufrag: ufrag@, password: password@ };
                &&& result is Ok <==> view.is_valid()
                &&& result is Ok ==> result->Ok_0@ == view
                &&& result is Err ==> result->Err_0 == IceError::InvalidCredentials
            }),
    {
        let mut ufrag: String = ufrag;
        let mut password: String = password;
        if !text_is_ice(ufrag.as_str(), 4, 256) || !text_is_ice(password.as_str(), 22, 256) {
            wipe_text(&mut ufrag);
            wipe_text(&mut password);
            return Err(IceError::InvalidCredentials);
        }
        Ok(IceCredentials { ufrag, password })
    }

    /// Credentials that a peer signaled.
    pub fn from_signaling(signaled: &SignaledCredentials) -> (result: Result<
        IceCredentials,
        IceError,
    >)
        ensures
            match read_as(*signaled) {
                Ok(view) => result is Ok && result->Ok_0@ == view,
                Err(error) => result is Err && result->Err_0 == error,
            },
    {
        IceCredentials::from_parts(signaled.ufrag.clone(), signaled.password.clone())
    }

    /// The credentials for authenticated, secret-safe signaling. `accepted`
    /// says whether the signaling layer takes them.
    pub fn to_signaling(
        &self,
        exchange_id: u64,
        generation: u32,
        role: IceRole,
        accepted: bool,
    ) -> (result: Result<SignaledCredentials, IceError>)
        ensures
            accepted ==> result is Ok && signaled_by(
                self@,
                exchange_id,
                generation,
                role,
                result->Ok_0,
            ),
            !accepted ==> result is Err && result->Err_0 == IceError::InvalidCredentials,
    {
        if !accepted {
            return Err(IceError::InvalidCredentials);
        }
        Ok(
            SignaledCredentials {
                exchange: IceCredentialExchange {
                    exchange_id,
                    generation,
                    role: role.to_signaling(),
                },
                ufrag: self.ufrag.clone(),
                password: self.password.clone(),
            },
        )
    }

    /// The user fragment.
    pub fn ufrag(&self) -> (ufrag: &str)
        ensures
            ufrag@ == self@.ufrag,
    {
        self.ufrag.as_str()
    }

    /// The password's length.
    pub fn password_len(&self) -> (len: usize)
        ensures
            len == self@.password.len(),
    {
        self.password.as_str().unicode_len()
    }

    /// The user fragment and the password, for the connectivity-check agent.
    pub fn to_core(&self) -> (parts: (String, String))
        ensures
            parts.0@ == self@.ufrag,
            parts.1@ == self@.password,
    {
        (self.ufrag.clone(), self.password.clone())
    }

    /// Whether two credentials are the same.
    pub fn same(&self, other: &IceCredentials) -> (same: bool)
        ensures
            same == (self@ == other@),
    {
        self.ufrag == other.ufrag && self.password == other.password
    }

    /// A copy.
    pub fn copied(&self) -> (copy: IceCredentials)
        ensures
            copy@ == self@,
    {
        IceCredentials { ufrag: self.ufrag.clone(), password: self.password.clone() }
    }

    /// What may be shown of the credentials: nothing.
    pub fn redacted(&self) -> (text: String)
        ensures
            text@
                == "IceCredentials { ufrag: \"<redacted>\", password: \"<redacted>\" }"@,
    {
        String::from_str("IceCredentials { ufrag: \"<redacted>\", password: \"<redacted>\" }")
    }
}

/// What one peer signals, the other reads back unchanged, and it learns the
/// role that the peer has.
pub proof fn law_signaled_credentials_survive(
    credentials: CredentialsView,
    exchange_id: u64,
    generation: u32,
    role: IceRole,
    signaled: SignaledCredentials,
)
    requires
        credentials.is_valid(),
        signaled_by(credentials, exchange_id, generation, role, signaled),
    ensures
        read_as(signaled) == Ok::<CredentialsView, IceError>(credentials),
        IceRole::of(signaled.exchange.role) == role,
{
}

// ---------------------------------------------------------------------------
// Configuration
// ---------------------------------------------------------------------------
/// Timing of the connectivity checks, in nanoseconds.
#[derive(Debug, Clone, Copy, PartialEq, Eq, Structural)]
pub struct IceConfig {
    pub timing_advance_ns: u64,
    pub initial_rto_ns: u64,
    pub max_rto_ns: u64,
    pub max_retransmits: usize,
    pub establishment_deadline_ns: u64,
}

impl Default for IceConfig {
    fn default() -> (config: Self)
        ensures
            config == (IceConfig {
                timing_advance_ns: 50_000_000,
                initial_rto_ns: 250_000_000,
                max_rto_ns: 3_000_000_000,
                max_retransmits: 7,
                establishment_deadline_ns: 20_000_000_000,
            }),
            config.is_valid(),
    {
        IceConfig {
            timing_advance_ns: 50_000_000,
            initial_rto_ns: 250_000_000,
            max_rto_ns: 3_000_000_000,
            max_retransmits: 7,
            establishment_deadline_ns: 20_000_000_000,
        }
    }
}

impl IceConfig {
    /// Every time is within its bounds.
    pub open spec fn is_valid(self) -> bool {
        &&& 10_000_000 <= self.timing_advance_ns <= 1_000_000_000
        &&& 10_000_000 <= self.initial_rto_ns <= 1_000_000_000
        &&& self.initial_rto_ns <= self.max_rto_ns <= 3_000_000_000
        &&& 1 <= self.max_retransmits <= 9
        &&& self.initial_rto_ns <= self.establishment_deadline_ns <= 40_000_000_000
    }

    /// Accepts bounded timing.
    pub fn validate(&self) -> (result: Result<(), IceError>)
        ensures
            result == (if self.is_valid() {
                Ok::<(), IceError>(())
            } else {
                Err::<(), IceError>(IceError::InvalidConfig)
            }),
    {
        if self.timing_advance_ns < 10_000_000 || self.timing_advance_ns > 1_000_000_000
            || self.initial_rto_ns < 10_000_000 || self.initial_rto_ns > 1_000_000_000
            || self.max_rto_ns < self.initial_rto_ns || self.max_rto_ns > 3_000_000_000
            || self.max_retransmits < 1 || self.max_retransmits > 9
            || self.establishment_deadline_ns < self.initial_rto_ns
            || self.establishment_deadline_ns > 40_000_000_000 {
            return Err(IceError::InvalidConfig);
        }
        Ok(())
    }
}

/// Where the connectivity checks stand.
#[derive(Debug, Clone, Copy, PartialEq, Eq, Structural)]
pub enum IceState {
    New,
    Checking,
    Connected,
    Completed,
    Disconnected,
}

impl IceState {
    /// A path works.
    pub open spec fn connected(self) -> bool {
        self == IceState::Connected || self == IceState::Completed
    }

    /// Whether a path works.
    pub fn is_connected(self) -> (result: bool)
        ensures
            result == self.connected(),
    {
        matches!(self, IceState::Connected | IceState::Completed)
    }
}

/// Counters of the connectivity-check agent.
#[derive(Debug, Clone, Copy, PartialEq, Eq, Structural)]
pub struct IceStats {
    pub binding_requests_sent: u64,
    pub binding_successes_received: u64,
    pub binding_requests_received: u64,
    pub discovered_remote_addresses: u64,
    pub nominations_sent: u64,
}

/// What the connectivity-check agent reports.
#[derive(Debug, Clone, Copy, PartialEq, Eq, Structural)]
pub enum IceEvent {
    Restart,
    State(IceState),
    Discovered { source: SocketAddress },
    Nominated { source: SocketAddress, destination: SocketAddress },
}

// ---------------------------------------------------------------------------
// The adapter
// ---------------------------------------------------------------------------
/// The adapter as mathematics sees it.
#[verifier::ext_equal]
pub struct IceView {
    pub role: IceRole,
    pub local: Seq<IceCandidate>,
    pub remote: Seq<IceCandidate>,
    pub remote_credentials: Option<CredentialsView>,
    pub family_is_ipv4: Option<bool>,
    pub started_ns: u64,
    pub deadline_ns: u64,
    pub ever_connected: bool,
}

/// Some candidate was seen from this base.
pub open spec fn has_base(candidates: Seq<IceCandidate>, base: SocketAddress) -> bool {
    exists|i: int| 0 <= i < candidates.len() && (#[trigger] candidates[i]).base == base
}

/// Every candidate is of one version.
pub open spec fn of_family(candidates: Seq<IceCandidate>, ipv4: bool) -> bool {
    forall|i: int|
        0 <= i < candidates.len() ==> (#[trigger] candidates[i]).address.ip is V4 == ipv4
}

impl IceView {
    /// No list is too long or holds a candidate twice, and all candidates are
    /// supported and of one version.
    pub open spec fn is_valid(self) -> bool {
        &&& self.local.len() <= MAX_ICE_CANDIDATES
        &&& self.remote.len() <= MAX_ICE_CANDIDATES
        &&& self.local.no_duplicates()
        &&& self.remote.no_duplicates()
        &&& forall|i: int| 0 <= i < self.local.len() ==> (#[trigger] self.local[i]).is_supported()
        &&& forall|i: int| 0 <= i < self.remote.len() ==> (#[trigger] self.remote[i]).is_supported()
        &&& match self.family_is_ipv4 {
            Some(ipv4) => of_family(self.local, ipv4) && of_family(self.remote, ipv4),
            None => self.local.len() == 0 && self.remote.len() == 0,
        }
    }

    /// The candidates of one side.
    pub open spec fn side(self, local: bool) -> Seq<IceCandidate> {
        if local {
            self.local
        } else {
            self.remote
        }
    }

    /// Why a candidate is refused before the agent sees it.
    pub open spec fn candidate_fault(self, candidate: IceCandidate, local: bool) -> Option<
        IceError,
    > {
        if !candidate.is_supported() {
            Some(IceError::UnsupportedCandidate)
        } else if self.family_is_ipv4 is Some && self.family_is_ipv4 != Some(
            candidate.address.ip is V4,
        ) {
            Some(IceError::MixedAddressFamily)
        } else if self.side(local).len() >= MAX_ICE_CANDIDATES {
            Some(IceError::CandidateLimit)
        } else if self.side(local).contains(candidate) {
            Some(IceError::DuplicateCandidate)
        } else {
            None
        }
    }

    /// The adapter with one more candidate.
    pub open spec fn with_candidate(self, candidate: IceCandidate, local: bool) -> IceView {
        let grown = self.side(local).push(candidate);
        IceView {
            local: if local {
                grown
            } else {
                self.local
            },
            remote: if local {
                self.remote
            } else {
                grown
            },
            family_is_ipv4: Some(candidate.address.ip is V4),
            ..self
        }
    }

    /// No path was found in time.
    pub open spec fn expired_at(self, now_ns: u64) -> bool {
        !self.ever_connected && now_ns - self.started_ns >= self.deadline_ns && now_ns
            >= self.started_ns
    }

    /// Why a received datagram is refused before it is parsed.
    pub open spec fn datagram_fault(
        self,
        now_ns: u64,
        source: SocketAddress,
        destination: SocketAddress,
        len: usize,
    ) -> Option<IceError> {
        if self.expired_at(now_ns) {
            Some(IceError::EstablishmentDeadlineExceeded)
        } else if len == 0 || len > MAX_ICE_DATAGRAM_BYTES || !source.usable()
            || !source.same_family(destination) {
            Some(IceError::InvalidDatagram)
        } else if !has_base(self.local, destination) {
            Some(IceError::UnexpectedDatagramDestination)
        } else {
            None
        }
    }

    /// The session after a received datagram, and its answer. A refused
    /// datagram changes nothing.
    pub open spec fn handling(
        self,
        now_ns: u64,
        source: SocketAddress,
        destination: SocketAddress,
        len: usize,
        parsed: bool,
        accepted: bool,
        state: IceState,
    ) -> (IceView, Result<bool, IceError>) {
        match self.datagram_fault(now_ns, source, destination, len) {
            Some(error) => (self, Err(error)),
            None => if parsed {
                (self.seen(state), Ok(accepted))
            } else {
                (self, Err(IceError::InvalidDatagram))
            },
        }
    }

    /// Why a datagram of the agent is not sent.
    pub open spec fn transmit_fault(
        self,
        source: SocketAddress,
        destination: SocketAddress,
        len: usize,
    ) -> Option<IceError> {
        if len > MAX_ICE_DATAGRAM_BYTES {
            Some(IceError::OversizedTransmit(len))
        } else if !has_base(self.local, source) || !destination.usable() || !source.same_family(
            destination,
        ) {
            Some(IceError::AgentInvariant)
        } else {
            None
        }
    }

    /// The adapter once the agent has reported its state.
    pub open spec fn seen(self, state: IceState) -> IceView {
        IceView { ever_connected: self.ever_connected || state.connected(), ..self }
    }
}

/// What the adapter keeps beside the connectivity-check agent.
pub struct Ice {
    role: IceRole,
    local_candidates: Vec<IceCandidate>,
    remote_candidates: Vec<IceCandidate>,
    remote_credentials: Option<IceCredentials>,
    family_is_ipv4: Option<bool>,
    started_ns: u64,
    establishment_deadline_ns: u64,
    ever_connected: bool,
}

impl View for Ice {
    type V = IceView;

    closed spec fn view(&self) -> IceView {
        IceView {
            role: self.role,
            local: self.local_candidates@,
            remote: self.remote_candidates@,
            remote_credentials: match self.remote_credentials {
                Some(credentials) => Some(credentials@),
                None => None,
            },
            family_is_ipv4: self.family_is_ipv4,
            started_ns: self.started_ns,
            deadline_ns: self.establishment_deadline_ns,
            ever_connected: self.ever_connected,
        }
    }
}

/// What a new connectivity-check agent needs.
pub struct IceSetup {
    pub ice: Ice,
    pub credentials: IceCredentials,
    /// Decides between two ends that claim the same role. Not zero.
    pub tie_breaker: u64,
}

/// The adapter before any candidate is known.
pub open spec fn fresh_ice(role: IceRole, config: IceConfig, started_ns: u64) -> IceView {
    IceView {
        role,
        local: Seq::empty(),
        remote: Seq::empty(),
        remote_credentials: None,
        family_is_ipv4: None,
        started_ns,
        deadline_ns: config.establishment_deadline_ns,
        ever_connected: false,
    }
}

fn contains_candidate(candidates: &Vec<IceCandidate>, candidate: IceCandidate) -> (found: bool)
    ensures
        found == candidates@.contains(candidate),
{
    let mut index: usize = 0;
    while index < candidates.len()
        invariant
            index <= candidates@.len(),
            forall|i: int| 0 <= i < index ==> candidates@[i] != candidate,
        decreases candidates@.len() - index,
    {
        if candidates[index] == candidate {
            return true;
        }
        index += 1;
    }
    false
}

fn contains_base(candidates: &Vec<IceCandidate>, base: SocketAddress) -> (found: bool)
    ensures
        found == has_base(candidates@, base),
{
    let mut index: usize = 0;
    while index < candidates.len()
        invariant
            index <= candidates@.len(),
            forall|i: int| 0 <= i < index ==> (#[trigger] candidates@[i]).base != base,
        decreases candidates@.len() - index,
    {
        if candidates[index].base == base {
            return true;
        }
        index += 1;
    }
    false
}

/// Whether `is::stun::StunMessage::parse` accepts these bytes.
pub uninterp spec fn is_stun_message(bytes: Seq<u8>) -> bool;

/// Calls `is::stun::StunMessage::parse` and keeps whether it succeeded. The
/// contract claims that the answer depends on the bytes alone.
#[verifier::external_body]
fn parses_as_stun(bytes: &[u8]) -> (parsed: bool)
    ensures
        parsed == is_stun_message(bytes@),
{
    is::stun::StunMessage::parse(bytes).is_ok()
}

impl Ice {
    /// A new adapter with fresh credentials and a fresh tie breaker.
    pub fn new_at(role: IceRole, config: IceConfig, started_ns: u64) -> (result: Result<
        IceSetup,
        IceError,
    >)
        ensures
            match result {
                Ok(setup) => {
                    &&& config.is_valid()
                    &&& setup.ice@ == fresh_ice(role, config, started_ns)
                    &&& setup.credentials@.is_valid()
                    &&& setup.tie_breaker != 0
                },
                Err(error) => error == IceError::EntropyUnavailable || (error
                    == IceError::InvalidConfig && !config.is_valid()),
            },
    {
        let credentials: IceCredentials = match IceCredentials::generate() {
            Ok(credentials) => credentials,
            Err(error) => return Err(error),
        };
        let ice: Ice = match Ice::with_config(role, config, started_ns) {
            Ok(ice) => ice,
            Err(error) => return Err(error),
        };
        match random_nonzero_u64() {
            Some(tie_breaker) => Ok(IceSetup { ice, credentials, tie_breaker }),
            None => Err(IceError::EntropyUnavailable),
        }
    }

    /// A new adapter with bounded timing.
    pub fn with_config(role: IceRole, config: IceConfig, started_ns: u64) -> (result: Result<
        Ice,
        IceError,
    >)
        ensures
            result is Ok <==> config.is_valid(),
            result is Ok ==> result->Ok_0@ == fresh_ice(role, config, started_ns)
                && result->Ok_0@.is_valid(),
            result is Err ==> result->Err_0 == IceError::InvalidConfig,
    {
        match config.validate() {
            Err(error) => return Err(error),
            Ok(()) => {},
        }
        Ok(
            Ice {
                role,
                local_candidates: Vec::new(),
                remote_candidates: Vec::new(),
                remote_credentials: None,
                family_is_ipv4: None,
                started_ns,
                establishment_deadline_ns: config.establishment_deadline_ns,
                ever_connected: false,
            },
        )
    }

    /// Takes the peer's credentials once. `true` means that the agent must be
    /// given them now.
    pub fn set_remote_credentials(&mut self, credentials: &IceCredentials) -> (result: Result<
        bool,
        IceError,
    >)
        ensures
            match old(self)@.remote_credentials {
                Some(current) => {
                    &&& final(self)@ == old(self)@
                    &&& result == (if current == credentials@ {
                        Ok::<bool, IceError>(false)
                    } else {
                        Err::<bool, IceError>(IceError::RemoteCredentialsChanged)
                    })
                },
                None => {
                    &&& final(self)@ == (IceView {
                        remote_credentials: Some(credentials@),
                        ..old(self)@
                    })
                    &&& result == Ok::<bool, IceError>(true)
                },
            },
    {
        match &self.remote_credentials {
            Some(current) => {
                if !current.same(credentials) {
                    return Err(IceError::RemoteCredentialsChanged);
                }
                return Ok(false);
            },
            None => {},
        }
        self.remote_credentials = Some(credentials.copied());
        Ok(true)
    }

    /// Whether the agent may be given a candidate.
    pub fn check_candidate(&self, candidate: IceCandidate, local: bool) -> (result: Result<
        (),
        IceError,
    >)
        ensures
            result == (match self@.candidate_fault(candidate, local) {
                Some(error) => Err::<(), IceError>(error),
                None => Ok::<(), IceError>(()),
            }),
    {
        match candidate.validate() {
            Err(error) => return Err(error),
            Ok(()) => {},
        }
        let ipv4: bool = candidate.address.is_ipv4();
        match self.family_is_ipv4 {
            Some(existing) => {
                if existing != ipv4 {
                    return Err(IceError::MixedAddressFamily);
                }
            },
            None => {},
        }
        let candidates: &Vec<IceCandidate> = if local {
            &self.local_candidates
        } else {
            &self.remote_candidates
        };
        if candidates.len() >= MAX_ICE_CANDIDATES {
            return Err(IceError::CandidateLimit);
        }
        if contains_candidate(candidates, candidate) {
            return Err(IceError::DuplicateCandidate);
        }
        Ok(())
    }

    fn add_candidate(&mut self, candidate: IceCandidate, local: bool, taken: bool) -> (result:
        Result<(), IceError>)
        requires
            old(self)@.is_valid(),
        ensures
            final(self)@.is_valid(),
            match old(self)@.candidate_fault(candidate, local) {
                Some(error) => final(self)@ == old(self)@ && result == Err::<(), IceError>(error),
                None => if taken {
                    final(self)@ == old(self)@.with_candidate(candidate, local) && result == Ok::<
                        (),
                        IceError,
                    >(())
                } else {
                    final(self)@ == old(self)@ && result == Err::<(), IceError>(
                        IceError::UnsupportedCandidate,
                    )
                },
            },
    {
        match self.check_candidate(candidate, local) {
            Err(error) => return Err(error),
            Ok(()) => {},
        }
        if !taken {
            return Err(IceError::UnsupportedCandidate);
        }
        if local {
            self.local_candidates.push(candidate);
        } else {
            self.remote_candidates.push(candidate);
        }
        self.family_is_ipv4 = Some(candidate.address.is_ipv4());
        proof {
            let before = old(self)@;
            assert(self@ =~= before.with_candidate(candidate, local));
            assert forall|i: int| 0 <= i < self@.side(local).len() implies (#[trigger] self@.side(
                local,
            )[i]).is_supported() by {
                if i < before.side(local).len() {
                    assert(self@.side(local)[i] == before.side(local)[i]);
                }
            }
        }
        Ok(())
    }

    /// Takes a candidate of this end. `taken` says whether the agent took it.
    pub fn add_local_candidate(&mut self, candidate: IceCandidate, taken: bool) -> (result: Result<
        (),
        IceError,
    >)
        requires
            old(self)@.is_valid(),
        ensures
            final(self)@.is_valid(),
            match old(self)@.candidate_fault(candidate, true) {
                Some(error) => final(self)@ == old(self)@ && result == Err::<(), IceError>(error),
                None => if taken {
                    final(self)@ == old(self)@.with_candidate(candidate, true) && result == Ok::<
                        (),
                        IceError,
                    >(())
                } else {
                    final(self)@ == old(self)@ && result == Err::<(), IceError>(
                        IceError::UnsupportedCandidate,
                    )
                },
            },
    {
        self.add_candidate(candidate, true, taken)
    }

    /// Takes a candidate of the other end. `taken` says whether the agent took
    /// it.
    pub fn add_remote_candidate(&mut self, candidate: IceCandidate, taken: bool) -> (result: Result<
        (),
        IceError,
    >)
        requires
            old(self)@.is_valid(),
        ensures
            final(self)@.is_valid(),
            match old(self)@.candidate_fault(candidate, false) {
                Some(error) => final(self)@ == old(self)@ && result == Err::<(), IceError>(error),
                None => if taken {
                    final(self)@ == old(self)@.with_candidate(candidate, false) && result == Ok::<
                        (),
                        IceError,
                    >(())
                } else {
                    final(self)@ == old(self)@ && result == Err::<(), IceError>(
                        IceError::UnsupportedCandidate,
                    )
                },
            },
    {
        self.add_candidate(candidate, false, taken)
    }

    /// How many candidates each end has.
    pub fn candidate_counts(&self) -> (counts: (usize, usize))
        ensures
            counts.0 == self@.local.len(),
            counts.1 == self@.remote.len(),
    {
        (self.local_candidates.len(), self.remote_candidates.len())
    }

    /// The largest number of pairs that can be checked.
    pub fn candidate_pair_upper_bound(&self) -> (pairs: usize)
        requires
            self@.is_valid(),
        ensures
            pairs == self@.local.len() * self@.remote.len(),
            pairs <= MAX_ICE_PAIRS,
    {
        let local: usize = self.local_candidates.len();
        let remote: usize = self.remote_candidates.len();
        assert(local * remote <= 64) by (nonlinear_arith)
            requires
                local <= 8,
                remote <= 8,
        ;
        local * remote
    }

    /// The candidates of this end.
    pub fn local_candidates(&self) -> (candidates: &[IceCandidate])
        ensures
            candidates@ == self@.local,
    {
        &self.local_candidates
    }

    /// The candidates of the other end.
    pub fn remote_candidates(&self) -> (candidates: &[IceCandidate])
        ensures
            candidates@ == self@.remote,
    {
        &self.remote_candidates
    }

    /// The role that this end was configured with.
    pub fn configured_role(&self) -> (role: IceRole)
        ensures
            role == self@.role,
    {
        self.role
    }

    /// Whether the deadline passed before any path worked.
    pub fn expired(&self, now_ns: u64) -> (result: bool)
        ensures
            result == self@.expired_at(now_ns),
    {
        !self.ever_connected && now_ns >= self.started_ns && now_ns - self.started_ns
            >= self.establishment_deadline_ns
    }

    /// Whether the agent's timers may run.
    pub fn advance(&self, now_ns: u64) -> (result: Result<(), IceError>)
        ensures
            result == (if self@.expired_at(now_ns) {
                Err::<(), IceError>(IceError::EstablishmentDeadlineExceeded)
            } else {
                Ok::<(), IceError>(())
            }),
    {
        if self.expired(now_ns) {
            return Err(IceError::EstablishmentDeadlineExceeded);
        }
        Ok(())
    }

    /// Takes note of the agent's state after it worked.
    pub fn update_connected_state(&mut self, state: IceState)
        requires
            old(self)@.is_valid(),
        ensures
            final(self)@ == old(self)@.seen(state),
            final(self)@.is_valid(),
    {
        if state.is_connected() {
            self.ever_connected = true;
        }
    }

    /// Whether a received datagram may go to the agent. `sound` says whether
    /// its fingerprint was found correct.
    pub fn check_datagram(
        &self,
        now_ns: u64,
        source: SocketAddress,
        destination: SocketAddress,
        bytes: &[u8],
        sound: bool,
    ) -> (result: Result<(), IceError>)
        ensures
            result == (match self@.datagram_fault(
                now_ns,
                source,
                destination,
                bytes@.len() as usize,
            ) {
                Some(error) => Err::<(), IceError>(error),
                None => if sound && is_stun_message(bytes@) {
                    Ok::<(), IceError>(())
                } else {
                    Err::<(), IceError>(IceError::InvalidDatagram)
                },
            }),
    {
        match self.check_envelope(now_ns, source, destination, bytes.len()) {
            Err(error) => return Err(error),
            Ok(()) => {},
        }
        if !sound || !parses_as_stun(bytes) {
            return Err(IceError::InvalidDatagram);
        }
        Ok(())
    }

    /// Whether a datagram of this length, origin and destination may be
    /// parsed.
    pub fn check_envelope(
        &self,
        now_ns: u64,
        source: SocketAddress,
        destination: SocketAddress,
        len: usize,
    ) -> (result: Result<(), IceError>)
        ensures
            result == (match self@.datagram_fault(now_ns, source, destination, len) {
                Some(error) => Err::<(), IceError>(error),
                None => Ok::<(), IceError>(()),
            }),
    {
        if self.expired(now_ns) {
            return Err(IceError::EstablishmentDeadlineExceeded);
        }
        if len == 0 || len > MAX_ICE_DATAGRAM_BYTES || !source.is_usable_address()
            || source.is_ipv4() != destination.is_ipv4() {
            return Err(IceError::InvalidDatagram);
        }
        if !contains_base(&self.local_candidates, destination) {
            return Err(IceError::UnexpectedDatagramDestination);
        }
        Ok(())
    }

    /// What becomes of a received datagram. `sound` says whether its
    /// fingerprint was found correct; `accepted` and `state` are the agent's
    /// answer to it and the agent's state after it.
    pub fn handle_datagram(
        &mut self,
        now_ns: u64,
        source: SocketAddress,
        destination: SocketAddress,
        bytes: &[u8],
        sound: bool,
        accepted: bool,
        state: IceState,
    ) -> (result: Result<bool, IceError>)
        requires
            old(self)@.is_valid(),
        ensures
            final(self)@.is_valid(),
            (final(self)@, result) == old(self)@.handling(
                now_ns,
                source,
                destination,
                bytes@.len() as usize,
                sound && is_stun_message(bytes@),
                accepted,
                state,
            ),
    {
        let parsed: bool = sound && parses_as_stun(bytes);
        self.judge_datagram(now_ns, source, destination, bytes.len(), parsed, accepted, state)
    }

    /// What becomes of a datagram of this length. `parsed` says whether its
    /// fingerprint is correct and it parses.
    pub fn judge_datagram(
        &mut self,
        now_ns: u64,
        source: SocketAddress,
        destination: SocketAddress,
        len: usize,
        parsed: bool,
        accepted: bool,
        state: IceState,
    ) -> (result: Result<bool, IceError>)
        requires
            old(self)@.is_valid(),
        ensures
            final(self)@.is_valid(),
            (final(self)@, result) == old(self)@.handling(
                now_ns,
                source,
                destination,
                len,
                parsed,
                accepted,
                state,
            ),
    {
        match self.check_envelope(now_ns, source, destination, len) {
            Err(error) => return Err(error),
            Ok(()) => {},
        }
        if !parsed {
            return Err(IceError::InvalidDatagram);
        }
        self.update_connected_state(state);
        Ok(accepted)
    }

    /// Whether a datagram of the agent may be sent.
    pub fn check_transmit(
        &self,
        source: SocketAddress,
        destination: SocketAddress,
        len: usize,
    ) -> (result: Result<(), IceError>)
        ensures
            result == (match self@.transmit_fault(source, destination, len) {
                Some(error) => Err::<(), IceError>(error),
                None => Ok::<(), IceError>(()),
            }),
    {
        if len > MAX_ICE_DATAGRAM_BYTES {
            return Err(IceError::OversizedTransmit(len));
        }
        if !contains_base(&self.local_candidates, source) {
            return Err(IceError::AgentInvariant);
        }
        if !destination.is_usable_address() || source.is_ipv4() != destination.is_ipv4() {
            return Err(IceError::AgentInvariant);
        }
        Ok(())
    }
}

/// Whatever is added, no side ever has more than its limit, no candidate twice
/// and no address of another version.
pub proof fn law_candidates_stay_bounded(ice: IceView, candidate: IceCandidate, local: bool)
    requires
        ice.is_valid(),
        ice.candidate_fault(candidate, local) is None,
    ensures
        ice.with_candidate(candidate, local).is_valid(),
        ice.with_candidate(candidate, local).candidate_fault(candidate, local) is Some,
{
    let next = ice.with_candidate(candidate, local);
    let side = ice.side(local);
    assert(next.side(local) == side.push(candidate));
    assert(next.side(local)[side.len() as int] == candidate);
    assert forall|i: int| 0 <= i < next.side(local).len() implies (#[trigger] next.side(
        local,
    )[i]).is_supported() by {
        if i < side.len() {
            assert(next.side(local)[i] == side[i]);
        }
    }
}

/// Once a path has worked, the establishment deadline no longer applies.
pub proof fn law_connected_session_does_not_expire(ice: IceView, state: IceState, now_ns: u64)
    requires
        state.connected(),
    ensures
        !ice.seen(state).expired_at(now_ns),
        ice.seen(state).seen(IceState::Disconnected) == ice.seen(state),
{
}

} // verus!
