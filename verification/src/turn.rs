//! Decisions of an authenticated TURN-over-UDP route.
//!
//! A route comes about only by completing Allocate with its challenge,
//! CreatePermission and ChannelBind. Times are nanoseconds of the caller's
//! monotonic clock, lifetimes are seconds.

use crate::address::{IpAddress, SocketAddress, V4_BROADCAST};
use crate::bytes::copy_bytes;
use crate::entropy::random_bytes;
use crate::text::{decimal, push_decimal, push_text};
use std::collections::VecDeque;
use vstd::prelude::*;
use vstd::string::*;

verus! {

/// Lifetime that is asked for, in seconds.
pub const ALLOCATION_LIFETIME_S: u64 = 600;

/// Payloads that wait to be read.
pub const MAX_QUEUE: usize = 64;

/// How long before a permission ends it is renewed, in seconds.
pub const AUTHORITY_REFRESH_MARGIN_S: u64 = 60;

/// Times that one request is sent.
pub const MAX_REQUEST_ATTEMPTS: u32 = 4;

/// Longest wait for an answer to one attempt, in nanoseconds.
pub const ATTEMPT_TIMEOUT_NS: u64 = 200_000_000;

/// Shortest pause between two refreshes, in nanoseconds.
pub const MIN_REFRESH_DELAY_NS: u64 = 50_000_000;

/// The transport number of UDP.
pub const UDP_TRANSPORT: u8 = 17;

/// Limits of the TURN wire codec.
#[derive(Debug, Clone, Copy, PartialEq, Eq, Structural)]
pub struct TurnWire {
    pub max_datagram_bytes: usize,
    pub channel_min: u16,
    pub channel_max: u16,
    /// How long a permission lasts, in seconds.
    pub permission_lifetime_s: u64,
}

impl TurnWire {
    /// Bytes that fit a ChannelData message behind its header.
    pub open spec fn payload_limit(self) -> int {
        self.max_datagram_bytes - 4
    }

    /// Bytes that fit a ChannelData message behind its header.
    pub fn max_payload(self) -> (limit: usize)
        requires
            self.max_datagram_bytes >= 4,
        ensures
            limit == self.payload_limit(),
    {
        self.max_datagram_bytes - 4
    }
}

/// Why a TURN operation fails.
#[derive(Debug, Clone, Copy, PartialEq, Eq, Structural)]
pub enum TurnError {
    InvalidConfiguration,
    /// The route expired or was revoked.
    NotLive,
    /// The route was revoked before it was established.
    Revoked,
    BindingMismatch,
    ChannelDataBounds,
    ShortDatagram,
    ReceiveBufferTooSmall,
    NotChallenged,
    ChallengeOmittedCredentials,
    OmittedRelayAddress,
    InvalidRelayAddress,
    OmittedLifetime,
    ZeroLifetime,
    TransactionFailed,
    TranscriptMismatch,
    RefreshOmittedLifetime,
    RefreshNotHonored,
    RefreshZeroLifetime,
    InvalidWireMessage,
    Randomness,
    RandomnessZero,
    TransactionTimeout,
    CredentialsUnavailable,
    Io,
}

// ---------------------------------------------------------------------------
// Configuration
// ---------------------------------------------------------------------------
/// Configuration for one authenticated TURN allocation. It has no debug output
/// of its own.
pub struct TurnRouteConfig {
    pub server: SocketAddress,
    pub bind: SocketAddress,
    pub username: Vec<u8>,
    pub password: Vec<u8>,
    pub peer: SocketAddress,
    pub channel: u16,
    pub timeout_ns: u64,
}

/// The address names no single host.
pub open spec fn is_unusable(address: SocketAddress) -> bool {
    ||| address.ip.unspecified()
    ||| address.ip.multicast()
    ||| address.ip == IpAddress::V4(V4_BROADCAST)
}

impl TurnRouteConfig {
    /// Usable distinct addresses of one version, bounded credentials and
    /// timeout, and a channel of the wire codec.
    pub open spec fn is_valid(self, wire: TurnWire) -> bool {
        &&& self.server.port != 0
        &&& self.peer.port != 0
        &&& self.server != self.peer
        &&& !is_unusable(self.server)
        &&& !is_unusable(self.peer)
        &&& !is_unusable(self.bind)
        &&& self.server.same_family(self.bind)
        &&& self.server.same_family(self.peer)
        &&& 1 <= self.username@.len() <= 512
        &&& 16 <= self.password@.len() <= 512
        &&& 0 < self.timeout_ns <= 120_000_000_000
        &&& wire.channel_min <= self.channel <= wire.channel_max
    }

    /// What may be shown of the configuration. The addresses and the timeout
    /// come as they are written down.
    pub fn redacted(&self, server: &str, bind: &str, peer: &str, timeout: &str) -> (text: String)
        ensures
            text@ == "TurnRouteConfig { server: "@ + server@ + ", bind: "@ + bind@
                + ", username: \"<redacted>\", password: \"<redacted>\", peer: "@ + peer@
                + ", channel: "@ + decimal(self.channel as nat) + ", timeout: "@ + timeout@
                + " }"@,
    {
        let mut text: String = String::from_str("TurnRouteConfig { server: ");
        push_text(&mut text, server);
        push_text(&mut text, ", bind: ");
        push_text(&mut text, bind);
        push_text(&mut text, ", username: \"<redacted>\", password: \"<redacted>\", peer: ");
        push_text(&mut text, peer);
        push_text(&mut text, ", channel: ");
        push_decimal(&mut text, self.channel as u64);
        push_text(&mut text, ", timeout: ");
        push_text(&mut text, timeout);
        push_text(&mut text, " }");
        text
    }
}

/// Whether an address names no single host.
pub fn unusable(address: SocketAddress) -> (result: bool)
    ensures
        result == is_unusable(address),
{
    let broadcast: bool = match address.ip {
        IpAddress::V4(value) => value == V4_BROADCAST,
        IpAddress::V6(_) => false,
    };
    address.ip.is_unspecified() || address.ip.is_multicast() || broadcast
}

/// Accepts a usable configuration.
pub fn validate_config(config: &TurnRouteConfig, wire: TurnWire) -> (result: Result<(), TurnError>)
    ensures
        result == (if config.is_valid(wire) {
            Ok::<(), TurnError>(())
        } else {
            Err::<(), TurnError>(TurnError::InvalidConfiguration)
        }),
{
    if config.server.port == 0 || config.peer.port == 0 || config.server == config.peer || unusable(
        config.server,
    ) || unusable(config.peer) || unusable(config.bind) || config.server.is_ipv4()
        != config.bind.is_ipv4() || config.server.is_ipv4() != config.peer.is_ipv4()
        || config.username.len() == 0 || config.username.len() > 512 || config.password.len() < 16
        || config.password.len() > 512 || config.timeout_ns == 0 || config.timeout_ns
        > 120_000_000_000 || config.channel < wire.channel_min || config.channel
        > wire.channel_max {
        return Err(TurnError::InvalidConfiguration);
    }
    Ok(())
}

/// The server can relay through this address.
pub open spec fn is_relay(relayed: SocketAddress, server: SocketAddress) -> bool {
    relayed.port != 0 && !is_unusable(relayed) && relayed.same_family(server)
}

/// Accepts a relay address of the server's version.
pub fn validate_relayed(relayed: SocketAddress, server: SocketAddress) -> (result: Result<
    (),
    TurnError,
>)
    ensures
        result == (if is_relay(relayed, server) {
            Ok::<(), TurnError>(())
        } else {
            Err::<(), TurnError>(TurnError::InvalidRelayAddress)
        }),
{
    if relayed.port == 0 || unusable(relayed) || relayed.is_ipv4() != server.is_ipv4() {
        return Err(TurnError::InvalidRelayAddress);
    }
    Ok(())
}

// ---------------------------------------------------------------------------
// Messages
// ---------------------------------------------------------------------------
#[derive(Debug, Clone, Copy, PartialEq, Eq, Structural)]
pub enum TurnClass {
    Request,
    Indication,
    Success,
    Error,
}

#[derive(Debug, Clone, Copy, PartialEq, Eq, Structural)]
pub enum TurnMethod {
    Allocate,
    Refresh,
    CreatePermission,
    ChannelBind,
    /// Any other method, by its wire number.
    Other(u16),
}

#[derive(Debug, PartialEq, Eq)]
pub enum TurnAttribute {
    Username(Vec<u8>),
    Realm(Vec<u8>),
    Nonce(Vec<u8>),
    RequestedTransport(u8),
    Lifetime(u32),
    ChannelNumber(u16),
    XorPeerAddress(SocketAddress),
    XorRelayedAddress(SocketAddress),
    ErrorCode(u16),
    /// Any other attribute, by its wire number.
    Other(u16),
}

/// An attribute as mathematics sees it.
pub enum AttributeView {
    Username(Seq<u8>),
    Realm(Seq<u8>),
    Nonce(Seq<u8>),
    RequestedTransport(u8),
    Lifetime(u32),
    ChannelNumber(u16),
    XorPeerAddress(SocketAddress),
    XorRelayedAddress(SocketAddress),
    ErrorCode(u16),
    Other(u16),
}

impl View for TurnAttribute {
    type V = AttributeView;

    open spec fn view(&self) -> AttributeView {
        match *self {
            TurnAttribute::Username(value) => AttributeView::Username(value@),
            TurnAttribute::Realm(value) => AttributeView::Realm(value@),
            TurnAttribute::Nonce(value) => AttributeView::Nonce(value@),
            TurnAttribute::RequestedTransport(value) => AttributeView::RequestedTransport(value),
            TurnAttribute::Lifetime(value) => AttributeView::Lifetime(value),
            TurnAttribute::ChannelNumber(value) => AttributeView::ChannelNumber(value),
            TurnAttribute::XorPeerAddress(value) => AttributeView::XorPeerAddress(value),
            TurnAttribute::XorRelayedAddress(value) => AttributeView::XorRelayedAddress(value),
            TurnAttribute::ErrorCode(value) => AttributeView::ErrorCode(value),
            TurnAttribute::Other(value) => AttributeView::Other(value),
        }
    }
}

/// The attributes of a message as mathematics sees them.
pub open spec fn attribute_views(attributes: Seq<TurnAttribute>) -> Seq<AttributeView> {
    Seq::new(attributes.len(), |i: int| attributes[i]@)
}

/// A decoded TURN message.
#[derive(Debug, PartialEq, Eq)]
pub struct TurnMessage {
    pub class: TurnClass,
    pub method: TurnMethod,
    pub transaction_id: [u8; 12],
    pub attributes: Vec<TurnAttribute>,
}

/// A message as mathematics sees it.
#[verifier::ext_equal]
pub struct MessageView {
    pub class: TurnClass,
    pub method: TurnMethod,
    pub transaction_id: Seq<u8>,
    pub attributes: Seq<AttributeView>,
}

impl View for TurnMessage {
    type V = MessageView;

    open spec fn view(&self) -> MessageView {
        MessageView {
            class: self.class,
            method: self.method,
            transaction_id: self.transaction_id@,
            attributes: attribute_views(self.attributes@),
        }
    }
}

/// The first attribute that `pick` reads something from.
pub open spec fn first_of<T>(
    attributes: Seq<AttributeView>,
    pick: spec_fn(AttributeView) -> Option<T>,
) -> Option<T>
    decreases attributes.len(),
{
    if attributes.len() == 0 {
        None
    } else if pick(attributes[0]) is Some {
        pick(attributes[0])
    } else {
        first_of(attributes.skip(1), pick)
    }
}

/// Reads a realm.
pub open spec fn realm() -> spec_fn(AttributeView) -> Option<Seq<u8>> {
    |attribute: AttributeView|
        match attribute {
            AttributeView::Realm(value) => Some(value),
            _ => None,
        }
}

/// Reads a nonce.
pub open spec fn nonce() -> spec_fn(AttributeView) -> Option<Seq<u8>> {
    |attribute: AttributeView|
        match attribute {
            AttributeView::Nonce(value) => Some(value),
            _ => None,
        }
}

/// Reads an error code.
pub open spec fn code() -> spec_fn(AttributeView) -> Option<u16> {
    |attribute: AttributeView|
        match attribute {
            AttributeView::ErrorCode(value) => Some(value),
            _ => None,
        }
}

/// Reads a relay address.
pub open spec fn relay() -> spec_fn(AttributeView) -> Option<SocketAddress> {
    |attribute: AttributeView|
        match attribute {
            AttributeView::XorRelayedAddress(value) => Some(value),
            _ => None,
        }
}

/// Reads a lifetime.
pub open spec fn lifetime() -> spec_fn(AttributeView) -> Option<u32> {
    |attribute: AttributeView|
        match attribute {
            AttributeView::Lifetime(value) => Some(value),
            _ => None,
        }
}

proof fn lemma_skip_one(attributes: Seq<AttributeView>, index: int)
    requires
        0 <= index < attributes.len(),
    ensures
        attributes.skip(index)[0] == attributes[index],
        attributes.skip(index).skip(1) == attributes.skip(index + 1),
{
    assert(attributes.skip(index).skip(1) =~= attributes.skip(index + 1));
}

fn error_code(message: &TurnMessage) -> (result: Option<u16>)
    ensures
        result == first_of(message@.attributes, code()),
{
    let ghost views = message@.attributes;
    let mut index: usize = 0;
    proof {
        assert(views.skip(0) =~= views);
    }
    while index < message.attributes.len()
        invariant
            index <= message.attributes@.len(),
            views == attribute_views(message.attributes@),
            first_of(views, code()) == first_of(views.skip(index as int), code()),
        decreases message.attributes@.len() - index,
    {
        proof {
            lemma_skip_one(views, index as int);
        }
        match &message.attributes[index] {
            TurnAttribute::ErrorCode(value) => return Some(*value),
            _ => {},
        }
        index += 1;
    }
    None
}

fn relayed_address(message: &TurnMessage) -> (result: Option<SocketAddress>)
    ensures
        result == first_of(message@.attributes, relay()),
{
    let ghost views = message@.attributes;
    let mut index: usize = 0;
    proof {
        assert(views.skip(0) =~= views);
    }
    while index < message.attributes.len()
        invariant
            index <= message.attributes@.len(),
            views == attribute_views(message.attributes@),
            first_of(views, relay()) == first_of(views.skip(index as int), relay()),
        decreases message.attributes@.len() - index,
    {
        proof {
            lemma_skip_one(views, index as int);
        }
        match &message.attributes[index] {
            TurnAttribute::XorRelayedAddress(value) => return Some(*value),
            _ => {},
        }
        index += 1;
    }
    None
}

fn granted_lifetime(message: &TurnMessage) -> (result: Option<u32>)
    ensures
        result == first_of(message@.attributes, lifetime()),
{
    let ghost views = message@.attributes;
    let mut index: usize = 0;
    proof {
        assert(views.skip(0) =~= views);
    }
    while index < message.attributes.len()
        invariant
            index <= message.attributes@.len(),
            views == attribute_views(message.attributes@),
            first_of(views, lifetime()) == first_of(views.skip(index as int), lifetime()),
        decreases message.attributes@.len() - index,
    {
        proof {
            lemma_skip_one(views, index as int);
        }
        match &message.attributes[index] {
            TurnAttribute::Lifetime(value) => return Some(*value),
            _ => {},
        }
        index += 1;
    }
    None
}

fn required_realm(message: &TurnMessage) -> (result: Result<Vec<u8>, TurnError>)
    ensures
        match first_of(message@.attributes, realm()) {
            Some(value) => result is Ok && result->Ok_0@ == value,
            None => result is Err && result->Err_0 == TurnError::ChallengeOmittedCredentials,
        },
{
    let ghost views = message@.attributes;
    let mut index: usize = 0;
    proof {
        assert(views.skip(0) =~= views);
    }
    while index < message.attributes.len()
        invariant
            index <= message.attributes@.len(),
            views == attribute_views(message.attributes@),
            first_of(views, realm()) == first_of(views.skip(index as int), realm()),
        decreases message.attributes@.len() - index,
    {
        proof {
            lemma_skip_one(views, index as int);
        }
        match &message.attributes[index] {
            TurnAttribute::Realm(value) => return Ok(copy_bytes(value)),
            _ => {},
        }
        index += 1;
    }
    Err(TurnError::ChallengeOmittedCredentials)
}

fn required_nonce(message: &TurnMessage) -> (result: Result<Vec<u8>, TurnError>)
    ensures
        match first_of(message@.attributes, nonce()) {
            Some(value) => result is Ok && result->Ok_0@ == value,
            None => result is Err && result->Err_0 == TurnError::ChallengeOmittedCredentials,
        },
{
    let ghost views = message@.attributes;
    let mut index: usize = 0;
    proof {
        assert(views.skip(0) =~= views);
    }
    while index < message.attributes.len()
        invariant
            index <= message.attributes@.len(),
            views == attribute_views(message.attributes@),
            first_of(views, nonce()) == first_of(views.skip(index as int), nonce()),
        decreases message.attributes@.len() - index,
    {
        proof {
            lemma_skip_one(views, index as int);
        }
        match &message.attributes[index] {
            TurnAttribute::Nonce(value) => return Ok(copy_bytes(value)),
            _ => {},
        }
        index += 1;
    }
    Err(TurnError::ChallengeOmittedCredentials)
}

fn ids_equal(left: &[u8; 12], right: &[u8; 12]) -> (equal: bool)
    ensures
        equal == (left@ == right@),
{
    crate::bytes::bytes_equal(left, right)
}

/// Why a reply is not the success that was asked for.
pub open spec fn success_fault(
    message: MessageView,
    method: TurnMethod,
    id: Seq<u8>,
) -> Option<TurnError> {
    if message.class == TurnClass::Error {
        Some(TurnError::TransactionFailed)
    } else if message.class != TurnClass::Success || message.method != method
        || message.transaction_id != id {
        Some(TurnError::TranscriptMismatch)
    } else {
        None
    }
}

/// Accepts the success of exactly this transaction.
pub fn require_success(message: &TurnMessage, method: TurnMethod, id: &[u8; 12]) -> (result: Result<
    (),
    TurnError,
>)
    ensures
        result == (match success_fault(message@, method, id@) {
            Some(error) => Err::<(), TurnError>(error),
            None => Ok::<(), TurnError>(()),
        }),
{
    if message.class == TurnClass::Error {
        return Err(TurnError::TransactionFailed);
    }
    if message.class != TurnClass::Success || message.method != method || !ids_equal(
        &message.transaction_id,
        id,
    ) {
        return Err(TurnError::TranscriptMismatch);
    }
    Ok(())
}

/// A transaction id that is not all zero, from the operating system's
/// randomness.
pub fn transaction_id() -> (result: Result<[u8; 12], TurnError>)
    ensures
        match result {
            Ok(id) => exists|i: int| 0 <= i < 12 && #[trigger] id@[i] != 0,
            Err(error) => error == TurnError::Randomness || error == TurnError::RandomnessZero,
        },
{
    match random_bytes(12) {
        Some(bytes) => id_from_bytes(&bytes),
        None => Err(TurnError::Randomness),
    }
}

/// The transaction id that random bytes give, unless all are zero.
pub fn id_from_bytes(bytes: &[u8]) -> (result: Result<[u8; 12], TurnError>)
    requires
        bytes@.len() == 12,
    ensures
        match result {
            Ok(id) => id@ == bytes@ && exists|i: int| 0 <= i < 12 && #[trigger] id@[i] != 0,
            Err(error) => error == TurnError::RandomnessZero && forall|i: int|
                0 <= i < 12 ==> #[trigger] bytes@[i] == 0,
        },
{
    let mut id: [u8; 12] = [0u8;12];
    let mut zero: bool = true;
    let mut index: usize = 0;
    while index < 12
        invariant
            index <= 12,
            bytes@.len() == 12,
            forall|i: int| 0 <= i < index ==> #[trigger] id@[i] == bytes@[i],
            zero <==> forall|i: int| 0 <= i < index ==> #[trigger] bytes@[i] == 0,
        decreases 12 - index,
    {
        let byte: u8 = bytes[index];
        id[index] = byte;
        if byte != 0 {
            zero = false;
        }
        index += 1;
    }
    if zero {
        return Err(TurnError::RandomnessZero);
    }
    proof {
        assert(id@ =~= bytes@);
        let witness = choose|i: int| 0 <= i < 12 && #[trigger] bytes@[i] != 0;
        assert(id@[witness] != 0);
    }
    Ok(id)
}

// ---------------------------------------------------------------------------
// The transcript that establishes a route
// ---------------------------------------------------------------------------
/// The exchange that is due.
#[derive(Debug, Clone, Copy, PartialEq, Eq, Structural)]
pub enum TurnStep {
    /// An unsigned Allocate that must be challenged.
    Challenge,
    Allocate,
    Permission,
    Bind,
    Established,
}

/// A request to encode and send. A signed one carries its integrity.
#[derive(Debug, PartialEq, Eq)]
pub struct TurnRequest {
    pub method: TurnMethod,
    pub attributes: Vec<TurnAttribute>,
    pub signed: bool,
}

/// The transcript as mathematics sees it.
#[verifier::ext_equal]
pub struct TranscriptView {
    pub server: SocketAddress,
    pub peer: SocketAddress,
    pub channel: u16,
    pub username: Seq<u8>,
    pub step: TurnStep,
    pub realm: Seq<u8>,
    pub nonce: Seq<u8>,
    pub relayed: Option<SocketAddress>,
    pub lifetime_s: u64,
}

/// What an allocation asks for.
pub open spec fn allocate_attributes() -> Seq<AttributeView> {
    seq![
        AttributeView::RequestedTransport(UDP_TRANSPORT),
        AttributeView::Lifetime(ALLOCATION_LIFETIME_S as u32),
    ]
}

/// What a permission asks for.
pub open spec fn permission_attributes(peer: SocketAddress) -> Seq<AttributeView> {
    seq![AttributeView::XorPeerAddress(peer)]
}

/// What a channel binding asks for.
pub open spec fn binding_attributes(channel: u16, peer: SocketAddress) -> Seq<AttributeView> {
    seq![AttributeView::ChannelNumber(channel), AttributeView::XorPeerAddress(peer)]
}

/// The credentials that a signed request starts with.
pub open spec fn credential_attributes(
    username: Seq<u8>,
    realm: Seq<u8>,
    nonce: Seq<u8>,
) -> Seq<AttributeView> {
    seq![
        AttributeView::Username(username),
        AttributeView::Realm(realm),
        AttributeView::Nonce(nonce),
    ]
}

impl TranscriptView {
    /// The method of the request that is due.
    pub open spec fn method(self) -> TurnMethod {
        match self.step {
            TurnStep::Permission => TurnMethod::CreatePermission,
            TurnStep::Bind => TurnMethod::ChannelBind,
            _ => TurnMethod::Allocate,
        }
    }

    /// The attributes of the request that is due.
    pub open spec fn attributes(self) -> Seq<AttributeView> {
        let credentials = credential_attributes(self.username, self.realm, self.nonce);
        match self.step {
            TurnStep::Permission => credentials + permission_attributes(self.peer),
            TurnStep::Bind => credentials + binding_attributes(self.channel, self.peer),
            TurnStep::Challenge => allocate_attributes(),
            _ => credentials + allocate_attributes(),
        }
    }

    /// Why the reply to the request that is due ends the transcript.
    pub open spec fn reply_fault(self, id: Seq<u8>, reply: MessageView) -> Option<TurnError> {
        match self.step {
            TurnStep::Challenge => if reply.class != TurnClass::Error || reply.method
                != TurnMethod::Allocate || first_of(reply.attributes, code()) != Some(401u16) {
                Some(TurnError::NotChallenged)
            } else if first_of(reply.attributes, realm()) is None || first_of(
                reply.attributes,
                nonce(),
            ) is None {
                Some(TurnError::ChallengeOmittedCredentials)
            } else {
                None
            },
            TurnStep::Allocate => match success_fault(reply, TurnMethod::Allocate, id) {
                Some(error) => Some(error),
                None => match first_of(reply.attributes, relay()) {
                    None => Some(TurnError::OmittedRelayAddress),
                    Some(relayed) => if !is_relay(relayed, self.server) {
                        Some(TurnError::InvalidRelayAddress)
                    } else {
                        match first_of(reply.attributes, lifetime()) {
                            None => Some(TurnError::OmittedLifetime),
                            Some(seconds) => if seconds == 0 {
                                Some(TurnError::ZeroLifetime)
                            } else {
                                None
                            },
                        }
                    },
                },
            },
            TurnStep::Permission => success_fault(reply, TurnMethod::CreatePermission, id),
            TurnStep::Bind => success_fault(reply, TurnMethod::ChannelBind, id),
            TurnStep::Established => Some(TurnError::TranscriptMismatch),
        }
    }

    /// The transcript after a reply that continues it.
    pub open spec fn after_reply(self, reply: MessageView) -> TranscriptView {
        match self.step {
            TurnStep::Challenge => TranscriptView {
                step: TurnStep::Allocate,
                realm: first_of(reply.attributes, realm())->Some_0,
                nonce: first_of(reply.attributes, nonce())->Some_0,
                ..self
            },
            TurnStep::Allocate => {
                let seconds = first_of(reply.attributes, lifetime())->Some_0;
                TranscriptView {
                    step: TurnStep::Permission,
                    relayed: first_of(reply.attributes, relay()),
                    lifetime_s: if seconds < ALLOCATION_LIFETIME_S {
                        seconds as u64
                    } else {
                        ALLOCATION_LIFETIME_S
                    },
                    ..self
                }
            },
            TurnStep::Permission => TranscriptView { step: TurnStep::Bind, ..self },
            TurnStep::Bind => TranscriptView { step: TurnStep::Established, ..self },
            TurnStep::Established => self,
        }
    }

    /// From the allocation on there is a relay address of the server's version
    /// and a lifetime within what was asked for.
    pub open spec fn is_valid(self) -> bool {
        (self.step == TurnStep::Permission || self.step == TurnStep::Bind || self.step
            == TurnStep::Established) ==> {
            &&& self.relayed is Some
            &&& is_relay(self.relayed->Some_0, self.server)
            &&& 1 <= self.lifetime_s <= ALLOCATION_LIFETIME_S
        }
    }
}

/// The exchange that establishes a route.
pub struct TurnTranscript {
    server: SocketAddress,
    peer: SocketAddress,
    channel: u16,
    username: Vec<u8>,
    step: TurnStep,
    realm: Vec<u8>,
    nonce: Vec<u8>,
    relayed: Option<SocketAddress>,
    lifetime_s: u64,
}

impl View for TurnTranscript {
    type V = TranscriptView;

    closed spec fn view(&self) -> TranscriptView {
        TranscriptView {
            server: self.server,
            peer: self.peer,
            channel: self.channel,
            username: self.username@,
            step: self.step,
            realm: self.realm@,
            nonce: self.nonce@,
            relayed: self.relayed,
            lifetime_s: self.lifetime_s,
        }
    }
}

/// The attributes of a signed request: the credentials, then its own.
pub fn signed_attributes(
    username: &[u8],
    realm: &[u8],
    nonce: &[u8],
    attributes: Vec<TurnAttribute>,
) -> (signed: Vec<TurnAttribute>)
    ensures
        attribute_views(signed@) == credential_attributes(username@, realm@, nonce@)
            + attribute_views(attributes@),
{
    let mut attributes: Vec<TurnAttribute> = attributes;
    let ghost own = attributes@;
    let mut signed: Vec<TurnAttribute> = Vec::new();
    signed.push(TurnAttribute::Username(copy_bytes(username)));
    signed.push(TurnAttribute::Realm(copy_bytes(realm)));
    signed.push(TurnAttribute::Nonce(copy_bytes(nonce)));
    let ghost credentials = signed@;
    signed.append(&mut attributes);
    proof {
        assert(signed@ =~= credentials + own);
        assert(attribute_views(credentials) =~= credential_attributes(
            username@,
            realm@,
            nonce@,
        ));
        assert(attribute_views(signed@) =~= attribute_views(credentials) + attribute_views(own));
    }
    signed
}

fn allocation_request() -> (attributes: Vec<TurnAttribute>)
    ensures
        attribute_views(attributes@) == allocate_attributes(),
{
    let mut attributes: Vec<TurnAttribute> = Vec::new();
    attributes.push(TurnAttribute::RequestedTransport(UDP_TRANSPORT));
    attributes.push(TurnAttribute::Lifetime(ALLOCATION_LIFETIME_S as u32));
    assert(attribute_views(attributes@) =~= allocate_attributes());
    attributes
}

/// The attributes that ask for a permission.
pub fn permission_request(peer: SocketAddress) -> (attributes: Vec<TurnAttribute>)
    ensures
        attribute_views(attributes@) == permission_attributes(peer),
{
    let mut attributes: Vec<TurnAttribute> = Vec::new();
    attributes.push(TurnAttribute::XorPeerAddress(peer));
    assert(attribute_views(attributes@) =~= permission_attributes(peer));
    attributes
}

/// The attributes that ask for a channel binding.
pub fn binding_request(channel: u16, peer: SocketAddress) -> (attributes: Vec<TurnAttribute>)
    ensures
        attribute_views(attributes@) == binding_attributes(channel, peer),
{
    let mut attributes: Vec<TurnAttribute> = Vec::new();
    attributes.push(TurnAttribute::ChannelNumber(channel));
    attributes.push(TurnAttribute::XorPeerAddress(peer));
    assert(attribute_views(attributes@) =~= binding_attributes(channel, peer));
    attributes
}

impl TurnTranscript {
    /// A transcript that starts with the unsigned allocation.
    pub fn new(server: SocketAddress, peer: SocketAddress, channel: u16, username: Vec<u8>) -> (
    transcript: Self)
        ensures
            transcript@ == (TranscriptView {
                server,
                peer,
                channel,
                username: username@,
                step: TurnStep::Challenge,
                realm: Seq::empty(),
                nonce: Seq::empty(),
                relayed: None,
                lifetime_s: 0,
            }),
            transcript@.is_valid(),
    {
        TurnTranscript {
            server,
            peer,
            channel,
            username,
            step: TurnStep::Challenge,
            realm: Vec::new(),
            nonce: Vec::new(),
            relayed: None,
            lifetime_s: 0,
        }
    }

    /// The exchange that is due.
    pub fn step(&self) -> (step: TurnStep)
        ensures
            step == self@.step,
    {
        self.step
    }

    /// The realm that the server challenged with.
    pub fn realm(&self) -> (realm: &[u8])
        ensures
            realm@ == self@.realm,
    {
        &self.realm
    }

    /// The nonce that the server challenged with.
    pub fn nonce(&self) -> (nonce: &[u8])
        ensures
            nonce@ == self@.nonce,
    {
        &self.nonce
    }

    /// The request that is due, or `None` once the route is established.
    pub fn next_request(&self) -> (request: Option<TurnRequest>)
        ensures
            match request {
                Some(request) => {
                    &&& self@.step != TurnStep::Established
                    &&& request.method == self@.method()
                    &&& attribute_views(request.attributes@) == self@.attributes()
                    &&& request.signed == (self@.step != TurnStep::Challenge)
                },
                None => self@.step == TurnStep::Established,
            },
    {
        match self.step {
            TurnStep::Challenge => Some(
                TurnRequest {
                    method: TurnMethod::Allocate,
                    attributes: allocation_request(),
                    signed: false,
                },
            ),
            TurnStep::Allocate => Some(
                TurnRequest {
                    method: TurnMethod::Allocate,
                    attributes: signed_attributes(
                        &self.username,
                        &self.realm,
                        &self.nonce,
                        allocation_request(),
                    ),
                    signed: true,
                },
            ),
            TurnStep::Permission => Some(
                TurnRequest {
                    method: TurnMethod::CreatePermission,
                    attributes: signed_attributes(
                        &self.username,
                        &self.realm,
                        &self.nonce,
                        permission_request(self.peer),
                    ),
                    signed: true,
                },
            ),
            TurnStep::Bind => Some(
                TurnRequest {
                    method: TurnMethod::ChannelBind,
                    attributes: signed_attributes(
                        &self.username,
                        &self.realm,
                        &self.nonce,
                        binding_request(self.channel, self.peer),
                    ),
                    signed: true,
                },
            ),
            TurnStep::Established => None,
        }
    }

    /// Takes the reply to the request that is due. A signed exchange's reply
    /// has had its integrity verified.
    pub fn take_reply(&mut self, id: &[u8; 12], reply: &TurnMessage) -> (result: Result<
        (),
        TurnError,
    >)
        requires
            old(self)@.is_valid(),
        ensures
            final(self)@.is_valid(),
            match old(self)@.reply_fault(id@, reply@) {
                Some(error) => final(self)@ == old(self)@ && result == Err::<(), TurnError>(error),
                None => final(self)@ == old(self)@.after_reply(reply@) && result == Ok::<
                    (),
                    TurnError,
                >(()),
            },
    {
        match self.step {
            TurnStep::Challenge => {
                let challenged: bool = match error_code(reply) {
                    Some(value) => value == 401,
                    None => false,
                };
                if reply.class != TurnClass::Error || reply.method != TurnMethod::Allocate
                    || !challenged {
                    return Err(TurnError::NotChallenged);
                }
                let realm: Vec<u8> = match required_realm(reply) {
                    Ok(value) => value,
                    Err(error) => return Err(error),
                };
                let nonce: Vec<u8> = match required_nonce(reply) {
                    Ok(value) => value,
                    Err(error) => return Err(error),
                };
                self.realm = realm;
                self.nonce = nonce;
                self.step = TurnStep::Allocate;
                Ok(())
            },
            TurnStep::Allocate => {
                match require_success(reply, TurnMethod::Allocate, id) {
                    Err(error) => return Err(error),
                    Ok(()) => {},
                }
                let relayed: SocketAddress = match relayed_address(reply) {
                    Some(relayed) => relayed,
                    None => return Err(TurnError::OmittedRelayAddress),
                };
                match validate_relayed(relayed, self.server) {
                    Err(error) => return Err(error),
                    Ok(()) => {},
                }
                let seconds: u64 = match granted_lifetime(reply) {
                    Some(seconds) => seconds as u64,
                    None => return Err(TurnError::OmittedLifetime),
                };
                if seconds == 0 {
                    return Err(TurnError::ZeroLifetime);
                }
                self.relayed = Some(relayed);
                self.lifetime_s = if seconds < ALLOCATION_LIFETIME_S {
                    seconds
                } else {
                    ALLOCATION_LIFETIME_S
                };
                self.step = TurnStep::Permission;
                Ok(())
            },
            TurnStep::Permission => {
                match require_success(reply, TurnMethod::CreatePermission, id) {
                    Err(error) => return Err(error),
                    Ok(()) => {},
                }
                self.step = TurnStep::Bind;
                Ok(())
            },
            TurnStep::Bind => {
                match require_success(reply, TurnMethod::ChannelBind, id) {
                    Err(error) => return Err(error),
                    Ok(()) => {},
                }
                self.step = TurnStep::Established;
                Ok(())
            },
            TurnStep::Established => Err(TurnError::TranscriptMismatch),
        }
    }

    /// The relay address and the lifetime in seconds, once established.
    pub fn outcome(&self) -> (outcome: Option<(SocketAddress, u64)>)
        requires
            self@.is_valid(),
        ensures
            outcome == (if self@.step == TurnStep::Established {
                Some((self@.relayed->Some_0, self@.lifetime_s))
            } else {
                None
            }),
    {
        match (self.step, self.relayed) {
            (TurnStep::Established, Some(relayed)) => Some((relayed, self.lifetime_s)),
            _ => None,
        }
    }
}

/// A route is established only by four replies in order, and then it has a
/// relay address and a bounded lifetime.
pub proof fn law_establishment_needs_the_whole_transcript(
    transcript: TranscriptView,
    id: Seq<u8>,
    reply: MessageView,
)
    requires
        transcript.is_valid(),
        transcript.reply_fault(id, reply) is None,
    ensures
        transcript.after_reply(reply).is_valid(),
        transcript.after_reply(reply).step == TurnStep::Established ==> transcript.step
            == TurnStep::Bind,
        transcript.after_reply(reply).step == TurnStep::Bind ==> transcript.step
            == TurnStep::Permission,
        transcript.after_reply(reply).step == TurnStep::Permission ==> transcript.step
            == TurnStep::Allocate,
        transcript.after_reply(reply).step == TurnStep::Allocate ==> transcript.step
            == TurnStep::Challenge,
{
}

// ---------------------------------------------------------------------------
// Refresh
// ---------------------------------------------------------------------------
/// What a refresh reply gives.
pub open spec fn refreshed(
    message: MessageView,
    id: Seq<u8>,
    requested_s: u32,
) -> Result<u64, TurnError> {
    match success_fault(message, TurnMethod::Refresh, id) {
        Some(error) => Err(error),
        None => match first_of(message.attributes, lifetime()) {
            None => Err(TurnError::RefreshOmittedLifetime),
            Some(returned) => if requested_s == 0 && returned != 0 {
                Err(TurnError::RefreshNotHonored)
            } else if requested_s != 0 && returned == 0 {
                Err(TurnError::RefreshZeroLifetime)
            } else {
                Ok(returned as u64)
            },
        },
    }
}

/// Judges the reply to a refresh. A lifetime of zero gives the allocation up.
pub fn judge_refresh(message: &TurnMessage, id: &[u8; 12], requested_s: u32) -> (result: Result<
    u64,
    TurnError,
>)
    ensures
        result == refreshed(message@, id@, requested_s),
{
    match require_success(message, TurnMethod::Refresh, id) {
        Err(error) => return Err(error),
        Ok(()) => {},
    }
    let returned: u32 = match granted_lifetime(message) {
        Some(returned) => returned,
        None => return Err(TurnError::RefreshOmittedLifetime),
    };
    if requested_s == 0 {
        if returned != 0 {
            return Err(TurnError::RefreshNotHonored);
        }
    } else if returned == 0 {
        return Err(TurnError::RefreshZeroLifetime);
    }
    Ok(returned as u64)
}

/// When to refresh: at half of what is left, in time for the permission, but
/// never at once.
pub open spec fn refresh_delay(remaining_ns: u64, permission_lifetime_s: u64) -> int {
    let margin = if permission_lifetime_s < AUTHORITY_REFRESH_MARGIN_S {
        0
    } else {
        (permission_lifetime_s - AUTHORITY_REFRESH_MARGIN_S) * 1_000_000_000
    };
    let half = (remaining_ns / 2) as int;
    let delay = if half < margin {
        half
    } else {
        margin
    };
    if delay < MIN_REFRESH_DELAY_NS {
        MIN_REFRESH_DELAY_NS as int
    } else {
        delay
    }
}

/// How long to wait before the next refresh.
pub fn refresh_delay_ns(remaining_ns: u64, permission_lifetime_s: u64) -> (delay_ns: u64)
    ensures
        delay_ns == refresh_delay(remaining_ns, permission_lifetime_s),
{
    let margin_ns: u128 = if permission_lifetime_s < AUTHORITY_REFRESH_MARGIN_S {
        0
    } else {
        (permission_lifetime_s - AUTHORITY_REFRESH_MARGIN_S) as u128 * 1_000_000_000
    };
    let half_ns: u64 = remaining_ns / 2;
    let delay_ns: u64 = if (half_ns as u128) < margin_ns {
        half_ns
    } else {
        margin_ns as u64
    };
    if delay_ns < MIN_REFRESH_DELAY_NS {
        MIN_REFRESH_DELAY_NS
    } else {
        delay_ns
    }
}

/// How long attempt number `attempt` of a request waits for its answer, or
/// `None` when the transaction has timed out.
pub fn attempt_timeout(attempt: u32, remaining_ns: u64) -> (timeout_ns: Option<u64>)
    ensures
        timeout_ns == (if attempt >= MAX_REQUEST_ATTEMPTS || remaining_ns == 0 {
            None
        } else if remaining_ns < ATTEMPT_TIMEOUT_NS {
            Some(remaining_ns)
        } else {
            Some(ATTEMPT_TIMEOUT_NS)
        }),
{
    if attempt >= MAX_REQUEST_ATTEMPTS || remaining_ns == 0 {
        return None;
    }
    if remaining_ns < ATTEMPT_TIMEOUT_NS {
        Some(remaining_ns)
    } else {
        Some(ATTEMPT_TIMEOUT_NS)
    }
}

// ---------------------------------------------------------------------------
// A live route
// ---------------------------------------------------------------------------
/// How long a route lives.
#[derive(Debug, PartialEq, Eq, Structural)]
pub struct LiveState {
    pub expiry_ns: u64,
    pub generation: u64,
    pub revoked: bool,
}

/// `seconds` after `now_ns`, as far as the clock reaches.
pub open spec fn seconds_after(now_ns: u64, seconds: u64) -> u64 {
    if now_ns + seconds * 1_000_000_000 > u64::MAX {
        u64::MAX
    } else {
        (now_ns + seconds * 1_000_000_000) as u64
    }
}

fn add_seconds(now_ns: u64, seconds: u64) -> (end_ns: u64)
    ensures
        end_ns == seconds_after(now_ns, seconds),
{
    let end_ns: u128 = now_ns as u128 + seconds as u128 * 1_000_000_000;
    if end_ns > u64::MAX as u128 {
        u64::MAX
    } else {
        end_ns as u64
    }
}

impl LiveState {
    /// The route can be used.
    pub open spec fn is_live(self, now_ns: u64) -> bool {
        !self.revoked && now_ns < self.expiry_ns
    }

    /// The route after a refresh that started at `generation`.
    pub open spec fn renewed(self, generation: u64, now_ns: u64, lifetime_s: u64) -> LiveState {
        if self.revoked || self.generation != generation {
            self
        } else {
            LiveState {
                expiry_ns: seconds_after(now_ns, lifetime_s),
                generation: if generation == u64::MAX {
                    u64::MAX
                } else {
                    (generation + 1) as u64
                },
                revoked: false,
            }
        }
    }

    /// A route that is being established.
    pub fn establishing(now_ns: u64, timeout_ns: u64) -> (state: Self)
        ensures
            state.generation == 0,
            !state.revoked,
            state.expiry_ns == (if now_ns + timeout_ns > u64::MAX {
                u64::MAX
            } else {
                (now_ns + timeout_ns) as u64
            }),
    {
        LiveState { expiry_ns: now_ns.saturating_add(timeout_ns), generation: 0, revoked: false }
    }

    /// Accepts a route that can be used.
    pub fn ensure_live(&self, now_ns: u64) -> (result: Result<(), TurnError>)
        ensures
            result == (if self.is_live(now_ns) {
                Ok::<(), TurnError>(())
            } else {
                Err::<(), TurnError>(TurnError::NotLive)
            }),
    {
        if self.revoked || now_ns >= self.expiry_ns {
            return Err(TurnError::NotLive);
        }
        Ok(())
    }

    /// Takes note of a completed transcript.
    pub fn establish(&mut self, now_ns: u64, lifetime_s: u64) -> (result: Result<(), TurnError>)
        ensures
            if old(self).revoked {
                *final(self) == *old(self) && result == Err::<(), TurnError>(TurnError::Revoked)
            } else {
                *final(self) == (LiveState {
                    expiry_ns: seconds_after(now_ns, lifetime_s),
                    generation: 1,
                    revoked: false,
                }) && result == Ok::<(), TurnError>(())
            },
    {
        if self.revoked {
            return Err(TurnError::Revoked);
        }
        self.expiry_ns = add_seconds(now_ns, lifetime_s);
        self.generation = 1;
        Ok(())
    }

    /// Takes note of a refresh that started at `generation`, unless the route
    /// has changed since.
    pub fn renew(&mut self, generation: u64, now_ns: u64, lifetime_s: u64)
        ensures
            *final(self) == old(self).renewed(generation, now_ns, lifetime_s),
    {
        if !self.revoked && self.generation == generation {
            self.generation = self.generation.saturating_add(1);
            self.expiry_ns = add_seconds(now_ns, lifetime_s);
        }
    }

    /// Ends the route; `true` means that it had not ended before.
    pub fn mark_revoked(&mut self) -> (first: bool)
        ensures
            *final(self) == (LiveState { revoked: true, ..*old(self) }),
            first == !old(self).revoked,
    {
        if self.revoked {
            false
        } else {
            self.revoked = true;
            true
        }
    }
}

/// A revoked route never comes back to life, whatever refresh completes later.
pub proof fn law_revocation_is_final(
    state: LiveState,
    generation: u64,
    now_ns: u64,
    lifetime_s: u64,
)
    requires
        state.revoked,
    ensures
        !state.is_live(now_ns),
        state.renewed(generation, now_ns, lifetime_s) == state,
{
}

/// Accepts a datagram that a live route may carry: to the bound peer, within
/// the payload bound, neither segmented nor with a chosen source.
pub fn check_transmit(
    state: &LiveState,
    now_ns: u64,
    wire: TurnWire,
    peer: SocketAddress,
    destination: SocketAddress,
    len: usize,
    is_segmented: bool,
    has_source: bool,
) -> (result: Result<(), TurnError>)
    requires
        wire.max_datagram_bytes >= 4,
    ensures
        result == (if !state.is_live(now_ns) {
            Err::<(), TurnError>(TurnError::NotLive)
        } else if destination != peer || len > wire.payload_limit() || is_segmented || has_source {
            Err::<(), TurnError>(TurnError::BindingMismatch)
        } else {
            Ok::<(), TurnError>(())
        }),
{
    match state.ensure_live(now_ns) {
        Err(error) => return Err(error),
        Ok(()) => {},
    }
    if destination != peer || len > wire.max_payload() || is_segmented || has_source {
        return Err(TurnError::BindingMismatch);
    }
    Ok(())
}

/// Accepts a datagram that was written whole.
pub fn check_written(len: usize, written: usize) -> (result: Result<(), TurnError>)
    ensures
        result == (if written == len {
            Ok::<(), TurnError>(())
        } else {
            Err::<(), TurnError>(TurnError::ShortDatagram)
        }),
{
    if written == len {
        Ok(())
    } else {
        Err(TurnError::ShortDatagram)
    }
}

/// What a datagram decodes to.
#[derive(Debug, Clone, Copy, PartialEq, Eq, Structural)]
pub enum TurnDatagram {
    /// ChannelData with its channel and the length of its payload.
    Channel { channel: u16, len: usize },
    /// A STUN message of this class.
    Message(TurnClass),
    Malformed,
}

/// What becomes of a datagram.
#[derive(Debug, Clone, Copy, PartialEq, Eq, Structural)]
pub enum TurnInbound {
    Ignore,
    /// Queue the payload for the reader.
    Payload,
    /// Hand the message to the transaction that waits for it.
    Response,
}

/// Sorts a received datagram. Only the server's datagrams count, and of those
/// only the bound channel's data and answers to requests.
pub fn judge_datagram(
    wire: TurnWire,
    server: SocketAddress,
    channel: u16,
    source: SocketAddress,
    len: usize,
    datagram: TurnDatagram,
) -> (verdict: TurnInbound)
    requires
        wire.max_datagram_bytes >= 4,
    ensures
        verdict == (if source != server || len == 0 || len > wire.max_datagram_bytes {
            TurnInbound::Ignore
        } else {
            match datagram {
                TurnDatagram::Channel { channel: actual, len: payload } => if actual != channel
                    || payload > wire.payload_limit() {
                    TurnInbound::Ignore
                } else {
                    TurnInbound::Payload
                },
                TurnDatagram::Message(class) => if class == TurnClass::Success || class
                    == TurnClass::Error {
                    TurnInbound::Response
                } else {
                    TurnInbound::Ignore
                },
                TurnDatagram::Malformed => TurnInbound::Ignore,
            }
        }),
{
    if source != server || len == 0 || len > wire.max_datagram_bytes {
        return TurnInbound::Ignore;
    }
    match datagram {
        TurnDatagram::Channel { channel: actual, len: payload } => {
            if actual != channel || payload > wire.max_payload() {
                TurnInbound::Ignore
            } else {
                TurnInbound::Payload
            }
        },
        TurnDatagram::Message(class) => {
            if class == TurnClass::Success || class == TurnClass::Error {
                TurnInbound::Response
            } else {
                TurnInbound::Ignore
            }
        },
        TurnDatagram::Malformed => TurnInbound::Ignore,
    }
}

/// The payloads that wait for the reader.
pub struct TurnQueue {
    payloads: VecDeque<Vec<u8>>,
}

impl View for TurnQueue {
    type V = Seq<Seq<u8>>;

    closed spec fn view(&self) -> Seq<Seq<u8>> {
        Seq::new(self.payloads@.len(), |i: int| self.payloads@[i]@)
    }
}

impl TurnQueue {
    /// An empty queue.
    pub fn new() -> (queue: Self)
        ensures
            queue@ == Seq::<Seq<u8>>::empty(),
    {
        let queue: TurnQueue = TurnQueue { payloads: VecDeque::new() };
        assert(queue@ =~= Seq::<Seq<u8>>::empty());
        queue
    }

    /// Payloads that wait.
    pub fn len(&self) -> (len: usize)
        ensures
            len == self@.len(),
    {
        self.payloads.len()
    }

    /// Queues a payload, unless the queue is full; then the payload is lost.
    pub fn push(&mut self, payload: Vec<u8>)
        ensures
            final(self)@ == (if old(self)@.len() < MAX_QUEUE {
                old(self)@.push(payload@)
            } else {
                old(self)@
            }),
    {
        if self.payloads.len() < MAX_QUEUE {
            self.payloads.push_back(payload);
            assert(self@ =~= old(self)@.push(payload@));
        }
    }

    /// Takes the oldest payload for a reader with room for `capacity` bytes. A
    /// payload that does not fit is lost.
    pub fn pop(&mut self, capacity: usize) -> (result: Result<Option<Vec<u8>>, TurnError>)
        ensures
            if old(self)@.len() == 0 {
                final(self)@ == old(self)@ && result is Ok && result->Ok_0 is None
            } else {
                &&& final(self)@ == old(self)@.skip(1)
                &&& if old(self)@[0].len() > capacity {
                    result is Err && result->Err_0 == TurnError::ReceiveBufferTooSmall
                } else {
                    result is Ok && result->Ok_0 is Some && result->Ok_0->Some_0@ == old(self)@[0]
                }
            },
    {
        match self.payloads.pop_front() {
            None => Ok(None),
            Some(payload) => {
                proof {
                    assert(payload@ == old(self)@[0]);
                    assert(self@ =~= old(self)@.skip(1));
                }
                if payload.len() > capacity {
                    return Err(TurnError::ReceiveBufferTooSmall);
                }
                Ok(Some(payload))
            },
        }
    }
}

} // verus!
