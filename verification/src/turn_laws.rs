//! What a relay route asks for, and what it takes for an answer.

use crate::address::{IpAddress, SocketAddress};
use crate::turn::{
    code, first_of, is_relay, is_unusable, lifetime, nonce, realm, refresh_delay, refreshed, relay,
    seconds_after, success_fault, AttributeView, LiveState, MessageView, TranscriptView, TurnClass,
    TurnError, TurnMethod, TurnRouteConfig, TurnStep, TurnWire, ALLOCATION_LIFETIME_S,
    ATTEMPT_TIMEOUT_NS, AUTHORITY_REFRESH_MARGIN_S, MAX_QUEUE, MAX_REQUEST_ATTEMPTS,
    MIN_REFRESH_DELAY_NS, UDP_TRANSPORT,
};
use vstd::prelude::*;

verus! {

/// What a relay route may take at most, and how it asks for UDP.
pub proof fn law_relay_limits()
    ensures
        ALLOCATION_LIFETIME_S == 600,
        MAX_QUEUE == 64,
        AUTHORITY_REFRESH_MARGIN_S == 60,
        MAX_REQUEST_ATTEMPTS == 4,
        ATTEMPT_TIMEOUT_NS == 200_000_000,
        MIN_REFRESH_DELAY_NS == 50_000_000,
        UDP_TRANSPORT == 17,
{
}

/// No relay, server or peer is an address that names no single host: none, a
/// group, or all hosts.
pub proof fn law_unusable_addresses_name_no_host(address: SocketAddress)
    ensures
        is_unusable(address) <==> match address.ip {
            IpAddress::V4(bits) => bits == 0 || (0xE000_0000 <= bits && bits <= 0xEFFF_FFFF) || bits
                == 0xFFFF_FFFF,
            IpAddress::V6(bits) => bits == 0 || bits >= 0xFF00_0000_0000_0000_0000_0000_0000_0000,
        },
{
}

/// A configuration is taken exactly if server and peer are two different hosts
/// with ports, all three addresses have one version, the name has 1 to 512
/// bytes, the password 16 to 512, the timeout is at most two minutes, and the
/// channel is one of the relay protocol's.
pub proof fn law_relay_configurations_are_bounded(config: TurnRouteConfig, wire: TurnWire)
    ensures
        config.is_valid(wire) <==> (config.server.port > 0 && config.peer.port > 0
            && config.server != config.peer && !is_unusable(config.server) && !is_unusable(
            config.peer,
        ) && !is_unusable(config.bind) && (config.server.ip is V4 <==> config.peer.ip is V4) && (
        config.server.ip is V4 <==> config.bind.ip is V4) && config.username@.len() >= 1
            && config.username@.len() <= 512 && config.password@.len() >= 16
            && config.password@.len() <= 512 && config.timeout_ns >= 1 && config.timeout_ns
            <= 120_000_000_000 && config.channel >= wire.channel_min && config.channel
            <= wire.channel_max),
        wire.payload_limit() + 4 == wire.max_datagram_bytes,
{
}

/// A relay address has a port, names a host, and has the server's version.
pub proof fn law_relay_addresses_reach_a_host(relayed: SocketAddress, server: SocketAddress)
    ensures
        is_relay(relayed, server) <==> relayed.port > 0 && !is_unusable(relayed) && (relayed.ip is V4
            <==> server.ip is V4),
{
}

/// Every request names what it is for. An allocation asks for UDP and ten
/// minutes; the first one is not signed and carries nothing else. All others
/// begin with the user name and the server's realm and nonce. A permission
/// names the peer of the route and nobody else; a binding names the channel and
/// the same peer.
pub proof fn law_requests_say_what_they_are_for(transcript: TranscriptView)
    ensures
        ({
            let own = transcript.attributes();
            &&& transcript.step == TurnStep::Challenge ==> {
                &&& transcript.method() == TurnMethod::Allocate
                &&& own.len() == 2
                &&& own[0] == AttributeView::RequestedTransport(17)
                &&& own[1] == AttributeView::Lifetime(600)
            }
            &&& transcript.step == TurnStep::Allocate ==> {
                &&& transcript.method() == TurnMethod::Allocate
                &&& own.len() == 5
                &&& own[3] == AttributeView::RequestedTransport(17)
                &&& own[4] == AttributeView::Lifetime(600)
            }
            &&& transcript.step == TurnStep::Permission ==> {
                &&& transcript.method() == TurnMethod::CreatePermission
                &&& own.len() == 4
                &&& own[3] == AttributeView::XorPeerAddress(transcript.peer)
            }
            &&& transcript.step == TurnStep::Bind ==> {
                &&& transcript.method() == TurnMethod::ChannelBind
                &&& own.len() == 5
                &&& own[3] == AttributeView::ChannelNumber(transcript.channel)
                &&& own[4] == AttributeView::XorPeerAddress(transcript.peer)
            }
            &&& transcript.step != TurnStep::Challenge ==> {
                &&& own[0] == AttributeView::Username(transcript.username)
                &&& own[1] == AttributeView::Realm(transcript.realm)
                &&& own[2] == AttributeView::Nonce(transcript.nonce)
            }
            &&& forall|i: int|
                0 <= i < own.len() ==> ((#[trigger] own[i]) matches AttributeView::XorPeerAddress(
                    named,
                ) ==> named == transcript.peer)
        }),
{
}

/// What is read of a message is the first attribute of its kind.
pub proof fn law_first_attribute_counts<T>(
    attributes: Seq<AttributeView>,
    pick: spec_fn(AttributeView) -> Option<T>,
)
    ensures
        match first_of(attributes, pick) {
            Some(value) => exists|i: int|
                0 <= i < attributes.len() && #[trigger] pick(attributes[i]) == Some(value)
                    && forall|j: int| 0 <= j < i ==> #[trigger] pick(attributes[j]) is None,
            None => forall|j: int|
                0 <= j < attributes.len() ==> #[trigger] pick(attributes[j]) is None,
        },
    decreases attributes.len(),
{
    if attributes.len() > 0 {
        let rest = attributes.skip(1);
        law_first_attribute_counts(rest, pick);
        if pick(attributes[0]) is Some {
            assert(pick(attributes[0]) == first_of(attributes, pick));
        } else if first_of(attributes, pick) is Some {
            let value = first_of(attributes, pick)->Some_0;
            let i = choose|i: int|
                0 <= i < rest.len() && #[trigger] pick(rest[i]) == Some(value) && forall|j: int|
                    0 <= j < i ==> #[trigger] pick(rest[j]) is None;
            assert(rest[i] == attributes[i + 1]);
            assert(pick(attributes[i + 1]) == Some(value));
            assert forall|j: int| 0 <= j < i + 1 implies #[trigger] pick(
                attributes[j],
            ) is None by {
                if j > 0 {
                    assert(rest[j - 1] == attributes[j]);
                    assert(pick(rest[j - 1]) is None);
                }
            }
        } else {
            assert forall|j: int| 0 <= j < attributes.len() implies #[trigger] pick(
                attributes[j],
            ) is None by {
                if j > 0 {
                    assert(rest[j - 1] == attributes[j]);
                    assert(pick(rest[j - 1]) is None);
                }
            }
        }
    }
}

/// Each reader takes exactly its own kind of attribute, with its value.
pub proof fn law_readers_take_their_own_kind(attribute: AttributeView)
    ensures
        forall|value: Seq<u8>|
            #[trigger] realm()(attribute) == Some(value) <==> attribute == AttributeView::Realm(
                value,
            ),
        forall|value: Seq<u8>|
            #[trigger] nonce()(attribute) == Some(value) <==> attribute == AttributeView::Nonce(
                value,
            ),
        forall|value: u16|
            #[trigger] code()(attribute) == Some(value) <==> attribute == AttributeView::ErrorCode(
                value,
            ),
        forall|value: SocketAddress|
            #[trigger] relay()(attribute) == Some(value) <==> attribute
                == AttributeView::XorRelayedAddress(value),
        forall|value: u32|
            #[trigger] lifetime()(attribute) == Some(value) <==> attribute
                == AttributeView::Lifetime(value),
{
}

/// A reply counts as the success of a request exactly if it is one, of the same
/// method and transaction. An error of any kind is a failed transaction.
pub proof fn law_success_is_of_the_same_transaction(
    message: MessageView,
    method: TurnMethod,
    id: Seq<u8>,
)
    ensures
        success_fault(message, method, id) is None <==> message.class == TurnClass::Success
            && message.method == method && message.transaction_id == id,
        message.class == TurnClass::Error <==> success_fault(message, method, id) == Some(
            TurnError::TransactionFailed,
        ),
        success_fault(message, method, id) is Some && message.class != TurnClass::Error
            ==> success_fault(message, method, id) == Some(TurnError::TranscriptMismatch),
{
}

/// The first request must be challenged: by an error 401 to Allocate, with a
/// realm and a nonce, which all later requests then carry.
pub proof fn law_challenge_gives_realm_and_nonce(
    transcript: TranscriptView,
    id: Seq<u8>,
    reply: MessageView,
)
    requires
        transcript.step == TurnStep::Challenge,
    ensures
        ({
            let sent = first_of(reply.attributes, realm());
            let fresh = first_of(reply.attributes, nonce());
            let challenged = reply.class == TurnClass::Error && reply.method
                == TurnMethod::Allocate && first_of(reply.attributes, code()) == Some(401u16);
            let after = transcript.after_reply(reply);
            &&& transcript.reply_fault(id, reply) is None <==> challenged && sent is Some
                && fresh is Some
            &&& !challenged ==> transcript.reply_fault(id, reply) == Some(TurnError::NotChallenged)
            &&& challenged && (sent is None || fresh is None) ==> transcript.reply_fault(id, reply)
                == Some(TurnError::ChallengeOmittedCredentials)
            &&& transcript.reply_fault(id, reply) is None ==> {
                &&& after.step == TurnStep::Allocate
                &&& Some(after.realm) == sent
                &&& Some(after.nonce) == fresh
                &&& after.attributes()[1] == AttributeView::Realm(sent->Some_0)
                &&& after.attributes()[2] == AttributeView::Nonce(fresh->Some_0)
            }
        }),
{
}

/// An allocation stands once its success names a relay address of a host and a
/// lifetime that is not zero. No lifetime counts for more than ten minutes.
pub proof fn law_allocation_gives_relay_and_lifetime(
    transcript: TranscriptView,
    id: Seq<u8>,
    reply: MessageView,
)
    requires
        transcript.step == TurnStep::Allocate,
    ensures
        ({
            let granted = first_of(reply.attributes, relay());
            let seconds = first_of(reply.attributes, lifetime());
            let after = transcript.after_reply(reply);
            let is_success = reply.class == TurnClass::Success && reply.method
                == TurnMethod::Allocate && reply.transaction_id == id;
            &&& transcript.reply_fault(id, reply) is None <==> is_success && (
            granted matches Some(relayed) && is_relay(relayed, transcript.server)) && (
            seconds matches Some(count) && count > 0)
            &&& is_success && granted is None ==> transcript.reply_fault(id, reply) == Some(
                TurnError::OmittedRelayAddress,
            )
            &&& is_success && (granted matches Some(relayed) && !is_relay(
                relayed,
                transcript.server,
            )) ==> transcript.reply_fault(id, reply) == Some(TurnError::InvalidRelayAddress)
            &&& is_success && (granted matches Some(relayed) && is_relay(
                relayed,
                transcript.server,
            )) && seconds is None ==> transcript.reply_fault(id, reply) == Some(
                TurnError::OmittedLifetime,
            )
            &&& is_success && (granted matches Some(relayed) && is_relay(
                relayed,
                transcript.server,
            )) && seconds == Some(0u32) ==> transcript.reply_fault(id, reply) == Some(
                TurnError::ZeroLifetime,
            )
            &&& transcript.reply_fault(id, reply) is None ==> {
                &&& after.step == TurnStep::Permission
                &&& after.relayed == granted
                &&& seconds->Some_0 <= 600 ==> after.lifetime_s == seconds->Some_0
                &&& seconds->Some_0 > 600 ==> after.lifetime_s == 600
                &&& after.realm == transcript.realm
                &&& after.nonce == transcript.nonce
            }
        }),
{
}

/// Permission and binding each need their own success, and change nothing but
/// the step; an established route takes no reply.
pub proof fn law_permission_and_binding_complete_the_route(
    transcript: TranscriptView,
    id: Seq<u8>,
    reply: MessageView,
)
    ensures
        ({
            let after = transcript.after_reply(reply);
            let fault = transcript.reply_fault(id, reply);
            let same = reply.class == TurnClass::Success && reply.transaction_id == id;
            &&& transcript.step == TurnStep::Permission ==> (fault is None <==> same && reply.method
                == TurnMethod::CreatePermission) && after == (TranscriptView {
                step: TurnStep::Bind,
                ..transcript
            })
            &&& transcript.step == TurnStep::Bind ==> (fault is None <==> same && reply.method
                == TurnMethod::ChannelBind) && after == (TranscriptView {
                step: TurnStep::Established,
                ..transcript
            })
            &&& transcript.step == TurnStep::Established ==> fault == Some(
                TurnError::TranscriptMismatch,
            ) && after == transcript
            &&& after.server == transcript.server
            &&& after.peer == transcript.peer
            &&& after.channel == transcript.channel
            &&& after.username == transcript.username
        }),
{
}

/// A refresh gives the lifetime that its success names. Giving up must be
/// answered with zero, and anything else with something else.
pub proof fn law_refresh_gives_the_granted_lifetime(
    message: MessageView,
    id: Seq<u8>,
    requested_s: u32,
)
    ensures
        ({
            let granted = first_of(message.attributes, lifetime());
            let is_success = message.class == TurnClass::Success && message.method
                == TurnMethod::Refresh && message.transaction_id == id;
            let result = refreshed(message, id, requested_s);
            &&& result is Ok <==> is_success && granted is Some && (requested_s == 0
                <==> granted->Some_0 == 0)
            &&& result matches Ok(seconds) ==> seconds == granted->Some_0
            &&& is_success && granted is None ==> result == Err::<u64, TurnError>(
                TurnError::RefreshOmittedLifetime,
            )
            &&& is_success && granted is Some && requested_s == 0 && granted->Some_0 != 0
                ==> result == Err::<u64, TurnError>(TurnError::RefreshNotHonored)
            &&& is_success && granted == Some(0u32) && requested_s != 0 ==> result == Err::<
                u64,
                TurnError,
            >(TurnError::RefreshZeroLifetime)
        }),
{
}

/// A refresh comes at half of what is left of the allocation, or a minute before
/// the permission ends where that is sooner, but never within 50 milliseconds.
pub proof fn law_refresh_comes_in_time(remaining_ns: u64, permission_lifetime_s: u64)
    ensures
        ({
            let delay = refresh_delay(remaining_ns, permission_lifetime_s);
            let half = remaining_ns as int / 2;
            let before_end = permission_lifetime_s * 1_000_000_000 - 60_000_000_000;
            &&& delay >= 50_000_000
            &&& delay > 50_000_000 ==> delay <= half && delay <= before_end && (delay == half
                || delay == before_end)
            &&& half >= 50_000_000 && before_end >= 50_000_000 ==> delay == half || delay
                == before_end
        }),
{
}

/// A route lives until its time is over or it is revoked. A refresh gives it as
/// many seconds from now as were granted, if it is still the route that the
/// refresh began with, and makes it another generation.
pub proof fn law_route_lives_as_long_as_granted(
    state: LiveState,
    generation: u64,
    now_ns: u64,
    lifetime_s: u64,
    later_ns: u64,
)
    ensures
        state.is_live(now_ns) <==> !state.revoked && now_ns < state.expiry_ns,
        now_ns + lifetime_s * 1_000_000_000 <= u64::MAX ==> seconds_after(now_ns, lifetime_s)
            == now_ns + lifetime_s * 1_000_000_000,
        now_ns + lifetime_s * 1_000_000_000 > u64::MAX ==> seconds_after(now_ns, lifetime_s)
            == u64::MAX,
        ({
            let after = state.renewed(generation, now_ns, lifetime_s);
            &&& state.revoked || state.generation != generation ==> after == state
            &&& !state.revoked && state.generation == generation ==> {
                &&& !after.revoked
                &&& generation < u64::MAX ==> after.generation == generation + 1
                &&& now_ns + lifetime_s * 1_000_000_000 <= u64::MAX ==> (after.is_live(later_ns)
                    <==> later_ns < now_ns + lifetime_s * 1_000_000_000)
            }
        }),
{
}

} // verus!
