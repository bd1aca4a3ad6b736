//! How a path to the peer is found and probed, in plain terms.

use crate::address::{IpAddress, SocketAddress};
use crate::control::{ControlKind, ReceivedControl, SessionStamp, StreamKind};
use crate::error::ProtocolError;
use crate::ice::{
    all_ice, fresh_ice, has_base, ice_alphabet, ice_char, ice_text, probe_remote, CredentialsView,
    IceCandidate, IceCandidateKind, IceConfig, IceError, IceRole, IceState, IceView,
    SignaledCandidate, ICE_PASSWORD_LEN, ICE_UFRAG_LEN, MAX_ICE_CANDIDATES, MAX_ICE_DATAGRAM_BYTES,
    MAX_ICE_IGNORED_DATAGRAMS, MAX_ICE_PAIRS,
};
use crate::ice_run::{
    is_ignorable, start_fault, IceRun, NominatedPath, MAX_ICE_DRAIN_DATAGRAMS,
    MAX_ICE_INBOUND_BYTES, MAX_ICE_INBOUND_DATAGRAMS, MAX_ICE_OUTBOUND_DATAGRAMS, MAX_ICE_PAUSE_NS,
    MAX_ICE_SEND_ATTEMPTS,
};
use crate::probe::{
    client_fault, decode_fault, server_fault, IceProbeError, IceProbeMessage, IceProbeStage,
    ProbeTerms, TranscriptFault, DEFAULT_PROBE_TIMEOUT_NS, MAX_PROBE_DRAWS, MAX_PROBE_PAYLOAD,
    PROBE_ERROR,
};
use crate::product::IceCredentialRole;
use crate::stun::{
    is_mapped_address, is_server_address, StunPolicy, StunTransactionView, MAX_DRAINED_DATAGRAMS,
    MAX_IGNORED_DATAGRAMS, MAX_INITIAL_RTO_NS, MAX_REQUESTS, MAX_TOTAL_TIMEOUT_NS,
    TRANSACTION_ID_LEN,
};
use vstd::prelude::*;

verus! {

/// What finding a path may take at most.
pub proof fn law_path_limits()
    ensures
        MAX_ICE_CANDIDATES == 8,
        MAX_ICE_PAIRS == 64,
        MAX_ICE_DATAGRAM_BYTES == 2_048,
        MAX_ICE_IGNORED_DATAGRAMS == 32,
        ICE_UFRAG_LEN == 16,
        ICE_PASSWORD_LEN == 32,
        MAX_ICE_OUTBOUND_DATAGRAMS == 512,
        MAX_ICE_INBOUND_DATAGRAMS == 1_024,
        MAX_ICE_INBOUND_BYTES == 2_097_152,
        MAX_ICE_DRAIN_DATAGRAMS == 128,
        MAX_ICE_SEND_ATTEMPTS == 4,
        MAX_ICE_PAUSE_NS == 5_000_000,
        MAX_REQUESTS == 7,
        MAX_TOTAL_TIMEOUT_NS == 40_000_000_000,
        MAX_INITIAL_RTO_NS == 5_000_000_000,
        MAX_IGNORED_DATAGRAMS == 32,
        MAX_DRAINED_DATAGRAMS == 64,
        TRANSACTION_ID_LEN == 12,
        DEFAULT_PROBE_TIMEOUT_NS == 2_000_000_000,
        MAX_PROBE_PAYLOAD == 256,
        PROBE_ERROR == 288,
        MAX_PROBE_DRAWS == 3,
{
}

/// An IPv4 address is a group of hosts if its first byte is 224 to 239, and
/// names no host of its own if it is all ones or starts with 169.254. An IPv6
/// address is a group if its first byte is all ones. Zero is no address.
pub proof fn law_addresses_of_one_host(value: u32, long: u128, port: u16)
    ensures
        IpAddress::V4(value).multicast() <==> 224 <= value / 16_777_216 <= 239,
        IpAddress::V6(long).multicast() <==> long / 0x1_00_0000_0000_0000_0000_0000_0000_0000
            == 255,
        IpAddress::V4(value).unspecified() <==> value == 0,
        IpAddress::V6(long).unspecified() <==> long == 0,
        IpAddress::V4(value).broadcast_or_link_local() <==> (value == 4_294_967_295 || (value
            / 16_777_216 == 169 && value / 65_536 % 256 == 254)),
        !IpAddress::V6(long).broadcast_or_link_local(),
        SocketAddress::at(IpAddress::V4(value), port).usable() <==> (port >= 1 && value != 0 && !(
        224 <= value / 16_777_216 <= 239) && value != 4_294_967_295 && !(value / 16_777_216 == 169
            && value / 65_536 % 256 == 254)),
        SocketAddress::at(IpAddress::V6(long), port).usable() <==> (port >= 1 && long != 0 && long
            / 0x1_00_0000_0000_0000_0000_0000_0000_0000 != 255),
{
}

// ---------------------------------------------------------------------------
// Candidates and credentials
// ---------------------------------------------------------------------------
/// The controlling side of signaling is the controlling side of the checks.
pub proof fn law_roles_keep_their_names(role: IceCredentialRole)
    ensures
        IceRole::of(role) is Controlling <==> role is Controlling,
        IceRole::of(role) is Controlled <==> role is Controlled,
{
}

/// A candidate is supported exactly if both its addresses can be sent to and
/// are of one family, and it is a host candidate just where they are one.
pub proof fn law_usable_candidates_are_supported(candidate: IceCandidate)
    ensures
        candidate.is_supported() <==> (candidate.address.usable() && candidate.base.usable()
            && candidate.address.ip is V4 == candidate.base.ip is V4 && (candidate.kind is Host)
            == (candidate.address == candidate.base)),
        candidate.is_probe() <==> (candidate.is_supported() && candidate.kind is Host
            && candidate.address.ip is V4),
{
}

/// A signaled candidate is understood exactly if it is sound, of the first
/// component and UDP, and either a host candidate that names no other address,
/// or a reflexive one that names its base.
pub proof fn law_signaled_candidates_are_understood(
    signaled: SignaledCandidate,
    ip: IpAddress,
    port: u16,
)
    ensures
        ({
            let plain = signaled.is_sound && signaled.is_udp && signaled.component == 1;
            let address = SocketAddress::at(signaled.ip, signaled.port);
            &&& !plain ==> signaled.meant() is None
            &&& signaled.candidate_type is Other ==> signaled.meant() is None
            &&& plain && signaled.candidate_type is Host ==> signaled.meant() == (
            if signaled.related_address is None {
                Some(IceCandidate { address, base: address, kind: IceCandidateKind::Host })
            } else {
                None
            })
            &&& plain && signaled.candidate_type is ServerReflexive && signaled.related_address
                is None ==> signaled.meant() is None
            &&& plain && signaled.candidate_type is ServerReflexive && signaled.related_address
                == Some((ip, port)) ==> signaled.meant() == Some(
                IceCandidate {
                    address,
                    base: SocketAddress::at(ip, port),
                    kind: IceCandidateKind::ServerReflexive,
                },
            )
        }),
{
}

/// A probe goes to the only candidate of the peer, which is on the host of the
/// session and not at its address.
pub proof fn law_probe_goes_to_another_port_of_the_peer(
    candidates: Seq<SignaledCandidate>,
    peer: SocketAddress,
)
    ensures
        probe_remote(candidates, peer) matches Ok(candidate) ==> {
            &&& candidates.len() == 1
            &&& candidates[0].meant() == Some(candidate)
            &&& candidate.is_probe()
            &&& candidate.address.ip == peer.ip
            &&& candidate.address != peer
        },
        ({
            let meant = candidates[0].meant();
            &&& candidates.len() != 1 || !(peer.ip is V4) ==> probe_remote(candidates, peer)
                == Err::<IceCandidate, IceError>(IceError::InvalidProbeCandidateSet)
            &&& candidates.len() == 1 && peer.ip is V4 && (meant is None
                || !meant->Some_0.is_probe()) ==> probe_remote(candidates, peer) == Err::<
                IceCandidate,
                IceError,
            >(IceError::UnsupportedCandidate)
            &&& candidates.len() == 1 && peer.ip is V4 && meant is Some && meant->Some_0.is_probe()
                && meant->Some_0.address.ip == peer.ip && meant->Some_0.address != peer
                ==> probe_remote(candidates, peer) is Ok
            &&& candidates.len() == 1 && peer.ip is V4 && meant is Some && meant->Some_0.is_probe()
                && (meant->Some_0.address.ip != peer.ip || meant->Some_0.address == peer)
                ==> probe_remote(candidates, peer) == Err::<IceCandidate, IceError>(
                IceError::InvalidProbeCandidateSet,
            )
        }),
{
}

/// Credentials are written with letters, digits, plus and slash: a name of 4 to
/// 256 and a password of 22 to 256 of them.
pub proof fn law_credentials_are_plain_text(credentials: CredentialsView, c: char)
    ensures
        credentials.is_valid() <==> (credentials.ufrag.len() >= 4 && credentials.ufrag.len() <= 256
            && credentials.password.len() >= 22 && credentials.password.len() <= 256 && all_ice(
            credentials.ufrag,
        ) && all_ice(credentials.password)),
        ice_char(c) <==> ('A' <= c <= 'Z' || 'a' <= c <= 'z' || '0' <= c <= '9' || c == '+' || c
            == '/'),
        all_ice(credentials.ufrag) <==> forall|i: int|
            0 <= i < credentials.ufrag.len() ==> ice_char(#[trigger] credentials.ufrag[i]),
{
}

/// Random bytes become one letter each, by their lower six bits.
pub proof fn law_entropy_is_spelled_out(entropy: Seq<u8>, index: int)
    requires
        0 <= index < entropy.len(),
    ensures
        ice_text(entropy).len() == entropy.len(),
        ice_text(entropy)[index] == ice_alphabet()[entropy[index] as int % 64],
        ice_alphabet()
            == "ABCDEFGHIJKLMNOPQRSTUVWXYZabcdefghijklmnopqrstuvwxyz0123456789+/"@,
{
}

/// A configuration is taken exactly if each time is within its limits and a
/// check may be repeated one to nine times.
pub proof fn law_check_times_in_range_are_taken(config: IceConfig)
    ensures
        config.is_valid() <==> (config.timing_advance_ns >= 10_000_000 && config.timing_advance_ns
            <= 1_000_000_000 && config.initial_rto_ns >= 10_000_000 && config.initial_rto_ns
            <= 1_000_000_000 && config.max_rto_ns >= config.initial_rto_ns && config.max_rto_ns
            <= 3_000_000_000 && config.max_retransmits >= 1 && config.max_retransmits <= 9
            && config.establishment_deadline_ns >= config.initial_rto_ns
            && config.establishment_deadline_ns <= 40_000_000_000),
{
}

// ---------------------------------------------------------------------------
// The checks
// ---------------------------------------------------------------------------
/// An adapter starts without candidates, with the time allowed to connect.
pub proof fn law_adapter_starts_empty(role: IceRole, config: IceConfig, started_ns: u64)
    ensures
        ({
            let view = fresh_ice(role, config, started_ns);
            &&& view.role == role
            &&& view.local.len() == 0
            &&& view.remote.len() == 0
            &&& view.remote_credentials is None
            &&& view.family_is_ipv4 is None
            &&& view.started_ns == started_ns
            &&& view.deadline_ns == config.establishment_deadline_ns
            &&& !view.ever_connected
        }),
{
}

/// A candidate is taken exactly if it is supported, of the family of the
/// others, new to its side, and its side has fewer than eight. It joins its own
/// side alone and fixes the family.
pub proof fn law_new_candidates_are_taken(view: IceView, candidate: IceCandidate, local: bool)
    ensures
        ({
            let side = if local {
                view.local
            } else {
                view.remote
            };
            let fitting = view.family_is_ipv4 is None || view.family_is_ipv4 == Some(
                candidate.address.ip is V4,
            );
            let verdict = view.candidate_fault(candidate, local);
            &&& verdict is None <==> (candidate.is_supported() && fitting && side.len() < 8
                && !side.contains(candidate))
            &&& !candidate.is_supported() ==> verdict == Some(IceError::UnsupportedCandidate)
            &&& candidate.is_supported() && !fitting ==> verdict == Some(
                IceError::MixedAddressFamily,
            )
            &&& candidate.is_supported() && fitting && side.len() >= 8 ==> verdict == Some(
                IceError::CandidateLimit,
            )
            &&& candidate.is_supported() && fitting && side.len() < 8 && side.contains(candidate)
                ==> verdict == Some(IceError::DuplicateCandidate)
            &&& local ==> view.with_candidate(candidate, local) == (IceView {
                local: view.local.push(candidate),
                family_is_ipv4: Some(candidate.address.ip is V4),
                ..view
            })
            &&& !local ==> view.with_candidate(candidate, local) == (IceView {
                remote: view.remote.push(candidate),
                family_is_ipv4: Some(candidate.address.ip is V4),
                ..view
            })
        }),
{
}

/// The time to connect is over exactly if it has passed since the start and no
/// connection was ever seen.
pub proof fn law_time_to_connect_runs_out(view: IceView, now_ns: u64, state: IceState)
    ensures
        view.expired_at(now_ns) <==> (!view.ever_connected && now_ns >= view.started_ns
            + view.deadline_ns),
        state.connected() <==> (state is Connected || state is Completed),
        view.seen(state).ever_connected <==> (view.ever_connected || state is Connected
            || state is Completed),
        view.seen(state) == (IceView { ever_connected: view.seen(state).ever_connected, ..view }),
{
}

/// One of the local candidates is based there.
pub open spec fn is_ours(view: IceView, address: SocketAddress) -> bool {
    exists|i: int| 0 <= i < view.local.len() && (#[trigger] view.local[i]).base == address
}

/// A datagram goes to the agent exactly if there is time left, it has 1 to 2048
/// bytes, its source can be answered, and it came to one of our own addresses
/// of that family. An answer seen there is told.
pub proof fn law_fitting_datagrams_are_handled(
    view: IceView,
    now_ns: u64,
    source: SocketAddress,
    destination: SocketAddress,
    len: usize,
    parsed: bool,
    accepted: bool,
    state: IceState,
)
    ensures
        ({
            let in_time = view.ever_connected || now_ns < view.started_ns + view.deadline_ns;
            let sound = 1 <= len <= 2_048 && source.usable() && source.ip is V4
                == destination.ip is V4;
            let ours = is_ours(view, destination);
            let verdict = view.datagram_fault(now_ns, source, destination, len);
            let handled = view.handling(
                now_ns,
                source,
                destination,
                len,
                parsed,
                accepted,
                state,
            );
            &&& verdict is None <==> (in_time && sound && ours)
            &&& !in_time ==> verdict == Some(IceError::EstablishmentDeadlineExceeded)
            &&& in_time && !sound ==> verdict == Some(IceError::InvalidDatagram)
            &&& in_time && sound && !ours ==> verdict == Some(
                IceError::UnexpectedDatagramDestination,
            )
            &&& verdict matches Some(error) ==> handled == (view, Err::<bool, IceError>(error))
            &&& verdict is None && !parsed ==> handled == (
                view,
                Err::<bool, IceError>(IceError::InvalidDatagram),
            )
            &&& verdict is None && parsed ==> handled == (
                IceView {
                    ever_connected: view.ever_connected || state is Connected
                        || state is Completed,
                    ..view
                },
                Ok::<bool, IceError>(accepted),
            )
        }),
{
    assert(has_base(view.local, destination) <==> is_ours(view, destination));
}

/// A datagram goes out exactly if it has at most 2048 bytes, starts from one of
/// our own addresses, and goes to a usable one of that family.
pub proof fn law_fitting_datagrams_are_sent(
    view: IceView,
    source: SocketAddress,
    destination: SocketAddress,
    len: usize,
)
    ensures
        ({
            let right = is_ours(view, source) && destination.usable() && source.ip is V4
                == destination.ip is V4;
            let verdict = view.transmit_fault(source, destination, len);
            &&& verdict is None <==> (len <= 2_048 && right)
            &&& len > 2_048 ==> verdict == Some(IceError::OversizedTransmit(len))
            &&& len <= 2_048 && !right ==> verdict == Some(IceError::AgentInvariant)
        }),
{
    assert(has_base(view.local, source) <==> is_ours(view, source));
}

// ---------------------------------------------------------------------------
// The run
// ---------------------------------------------------------------------------
/// A run starts exactly if there are local candidates and all are based on its
/// socket.
pub proof fn law_run_owns_its_socket(view: IceView, local: SocketAddress)
    ensures
        start_fault(view, local) is None <==> (view.local.len() >= 1 && forall|i: int|
            0 <= i < view.local.len() ==> (#[trigger] view.local[i]).base == local),
        start_fault(view, local) is Some ==> start_fault(view, local) == Some(
            IceError::AgentInvariant,
        ),
{
}

/// A datagram is counted exactly while there were fewer than 1024 and with it
/// no more than two mebibytes came in.
pub proof fn law_received_traffic_is_counted(run: IceRun, len: usize)
    requires
        run.received_this_round <= run.inbound,
    ensures
        run.counting(len) is Some <==> (run.inbound < 1_024 && run.inbound_bytes + len
            <= 2_097_152),
        run.counting(len) matches Some(next) ==> {
            &&& next.inbound == run.inbound + 1
            &&& next.inbound_bytes == run.inbound_bytes + len
            &&& next.received_this_round == run.received_this_round + 1
            &&& next.local == run.local
            &&& next.nominated == run.nominated
            &&& next.ignored == run.ignored
            &&& next.outbound == run.outbound
        },
{
}

/// A datagram that the agent does not take, that is no message, or that is not
/// for us is ignored. No other failure is.
pub proof fn law_stray_checks_are_ignored(handled: Result<bool, IceError>)
    ensures
        is_ignorable(handled) <==> match handled {
            Ok(accepted) => !accepted,
            Err(error) => error is InvalidDatagram || error is UnexpectedDatagramDestination,
        },
{
}

// ---------------------------------------------------------------------------
// Discovery
// ---------------------------------------------------------------------------
/// A policy is taken exactly if its first wait is positive and at most five
/// seconds, it sends one to seven requests, and it takes no less than the first
/// wait and no more than forty seconds.
pub proof fn law_discovery_policies_in_range_are_taken(policy: StunPolicy)
    ensures
        policy.is_valid() <==> (policy.initial_rto_ns >= 1 && policy.initial_rto_ns
            <= 5_000_000_000 && policy.max_requests >= 1 && policy.max_requests <= 7
            && policy.total_timeout_ns >= policy.initial_rto_ns && policy.total_timeout_ns
            <= 40_000_000_000),
{
}

/// A server has a port and an address of its own. So does what it maps us to,
/// which is not asked for more.
pub proof fn law_servers_have_an_address_of_their_own(address: SocketAddress)
    ensures
        is_mapped_address(address) <==> (address.port >= 1 && !address.ip.unspecified()
            && !address.ip.multicast()),
        is_server_address(address) <==> (address.port >= 1 && !address.ip.unspecified()
            && !address.ip.multicast() && address.ip != IpAddress::V4(4_294_967_295)),
{
}

/// A request may be sent while some are left and time is left. It is waited for
/// as long as the present wait and no longer than the whole may take. Each wait
/// is twice the one before.
pub proof fn law_waits_double(view: StunTransactionView, now_ns: u64)
    ensures
        view.may_request(now_ns) <==> (view.requests_sent + 1 <= view.policy.max_requests && now_ns
            < view.policy.total_timeout_ns),
        now_ns + view.rto_ns <= view.policy.total_timeout_ns ==> view.response_deadline(now_ns)
            == now_ns + view.rto_ns,
        now_ns + view.rto_ns >= view.policy.total_timeout_ns ==> view.response_deadline(now_ns)
            == view.policy.total_timeout_ns,
        view.rto_ns < 0x8000_0000_0000_0000 ==> view.next_rto() == 2 * view.rto_ns,
        view.rto_ns >= 0x8000_0000_0000_0000 ==> view.next_rto() == 5_000_000_000,
{
}

/// A datagram answers exactly if it comes from the server and maps us to an
/// address of our family that is one.
pub proof fn law_server_answers_with_our_address(
    view: StunTransactionView,
    source: SocketAddress,
    ip: IpAddress,
    port: u16,
)
    ensures
        !view.answers(source, None),
        view.answers(source, Some((ip, port))) <==> (source == view.server && ip is V4
            == view.local.ip is V4 && is_mapped_address(SocketAddress::at(ip, port))),
{
}

// ---------------------------------------------------------------------------
// The probe
// ---------------------------------------------------------------------------
/// Sixteen bytes, all of them zero.
pub open spec fn is_blank_nonce(nonce: [u8; 16]) -> bool {
    forall|i: int| 0 <= i < 16 ==> #[trigger] nonce@[i] == 0
}

/// The controlled side serves the probe and the controlling side asks, each
/// from the socket of the nominated path; the client also needs both nonces and
/// a path to where it was told to go.
pub proof fn law_probe_uses_the_nominated_path(
    timeout_ns: u64,
    role: IceRole,
    client_nonce: [u8; 16],
    host_nonce: [u8; 16],
    local: SocketAddress,
    path: NominatedPath,
    remote: SocketAddress,
)
    ensures
        ({
            let verdict = server_fault(timeout_ns, role, Some(local), path);
            &&& verdict is None <==> (timeout_ns >= 1 && role is Controlled && path.source == local)
            &&& timeout_ns == 0 ==> verdict == Some(IceProbeError::Timeout)
            &&& timeout_ns >= 1 && role is Controlling ==> verdict == Some(
                IceProbeError::Transcript(TranscriptFault::ServerRoleIsNotControlled),
            )
            &&& timeout_ns >= 1 && role is Controlled && path.source != local ==> verdict == Some(
                IceProbeError::InvalidRemote { expected: local, actual: path.source },
            )
            &&& timeout_ns >= 1 && role is Controlled ==> server_fault(timeout_ns, role, None, path)
                == Some(IceProbeError::Transcript(TranscriptFault::InvalidSocket))
        }),
        ({
            let nonces = !is_blank_nonce(client_nonce) && !is_blank_nonce(host_nonce);
            let asks = timeout_ns >= 1 && role is Controlling;
            let verdict = client_fault(
                timeout_ns,
                role,
                client_nonce,
                host_nonce,
                Some(local),
                path,
                remote,
            );
            &&& verdict is None <==> (asks && nonces && path.source == local && path.destination
                == remote)
            &&& timeout_ns == 0 ==> verdict == Some(IceProbeError::Timeout)
            &&& timeout_ns >= 1 && role is Controlled ==> verdict == Some(
                IceProbeError::Transcript(TranscriptFault::ClientRoleIsNotControlling),
            )
            &&& asks && !nonces ==> verdict == Some(
                IceProbeError::Transcript(TranscriptFault::ZeroNonce),
            )
            &&& asks && nonces && path.source != local ==> verdict == Some(
                IceProbeError::InvalidRemote { expected: local, actual: path.source },
            )
            &&& asks && nonces && path.source == local && path.destination != remote ==> verdict
                == Some(IceProbeError::InvalidRemote { expected: remote, actual: path.destination })
            &&& asks && nonces ==> client_fault(
                timeout_ns,
                role,
                client_nonce,
                host_nonce,
                None,
                path,
                remote,
            ) == Some(IceProbeError::Transcript(TranscriptFault::InvalidSocket))
        }),
{
    assert(crate::product::is_zero_nonce(client_nonce) <==> is_blank_nonce(client_nonce));
    assert(crate::product::is_zero_nonce(host_nonce) <==> is_blank_nonce(host_nonce));
}

/// A probe record is read exactly if it is one, came on the control lane, and
/// carries the session outside and the stamp inside.
pub proof fn law_probe_records_carry_their_stamp(
    lane: StreamKind,
    stamp: SessionStamp,
    kind: ControlKind,
    session_id: u64,
    message: IceProbeMessage,
    error: ProtocolError,
)
    ensures
        ({
            let verdict = decode_fault(
                lane,
                stamp,
                Ok(ReceivedControl { kind, session_id, body: Ok(message) }),
            );
            let bound = kind is IceProbe && session_id == stamp.session_id;
            &&& verdict is None <==> (lane is Control && bound && message.stamp == stamp)
            &&& lane is Input ==> verdict == Some(
                IceProbeError::Transcript(TranscriptFault::WrongLane),
            )
            &&& lane is Control && !bound ==> verdict == Some(
                IceProbeError::Transcript(TranscriptFault::WrongControlBinding),
            )
            &&& lane is Control && bound && message.stamp != stamp ==> verdict == Some(
                IceProbeError::Transcript(TranscriptFault::OuterStampBinding),
            )
            &&& lane is Control ==> decode_fault(lane, stamp, Err(error)) == Some(
                IceProbeError::Protocol(error),
            )
            &&& lane is Control && bound ==> decode_fault(
                lane,
                stamp,
                Ok(ReceivedControl { kind, session_id, body: Err(error) }),
            ) == Some(IceProbeError::Protocol(error))
        }),
{
}

/// A request is answered exactly if it is one, of this session and generation,
/// with both nonces, and the answer repeats its challenge. Every record carries
/// all the terms.
pub proof fn law_requests_on_our_terms_are_answered(
    terms: ProbeTerms,
    request: IceProbeMessage,
    stage: IceProbeStage,
    challenge: [u8; 32],
)
    ensures
        ({
            let record = terms.record(stage, challenge);
            &&& record.stage == stage
            &&& record.challenge == challenge
            &&& record.stamp == terms.stamp
            &&& record.ice_generation == terms.ice_generation
            &&& record.client_nonce == terms.client_nonce
            &&& record.host_nonce == terms.host_nonce
        }),
        ({
            let ours = request.stage is EchoRequest && request.stamp == terms.stamp
                && request.ice_generation == terms.ice_generation;
            let nonces = !is_blank_nonce(terms.client_nonce) && !is_blank_nonce(terms.host_nonce)
                && request.client_nonce == terms.client_nonce && request.host_nonce
                == terms.host_nonce;
            let answer = terms.responding(request);
            &&& !ours ==> answer == Err::<IceProbeMessage, IceProbeError>(
                IceProbeError::Transcript(TranscriptFault::RequestBinding),
            )
            &&& ours && !nonces ==> answer == Err::<IceProbeMessage, IceProbeError>(
                IceProbeError::Transcript(TranscriptFault::NonceBinding),
            )
            &&& ours && nonces ==> answer == Ok::<IceProbeMessage, IceProbeError>(
                IceProbeMessage { stage: IceProbeStage::EchoResponse, ..request },
            )
        }),
{
    assert(crate::product::is_zero_nonce(terms.client_nonce) <==> is_blank_nonce(
        terms.client_nonce,
    ));
    assert(crate::product::is_zero_nonce(terms.host_nonce) <==> is_blank_nonce(terms.host_nonce));
}

/// The exchange goes on exactly with the record that is due, and ends with a
/// completion that repeats the terms and the challenge.
pub proof fn law_completion_repeats_the_terms(
    terms: ProbeTerms,
    record: IceProbeMessage,
    stage: IceProbeStage,
    challenge: [u8; 32],
    fault: TranscriptFault,
)
    ensures
        ({
            let same = record.stamp == terms.stamp && record.ice_generation == terms.ice_generation
                && record.client_nonce == terms.client_nonce && record.host_nonce
                == terms.host_nonce && record.challenge == challenge;
            &&& terms.completing(record, stage, challenge, fault) == (if same && record.stage
                == stage {
                Ok::<IceProbeMessage, IceProbeError>(
                    IceProbeMessage { stage: IceProbeStage::Complete, ..record },
                )
            } else {
                Err::<IceProbeMessage, IceProbeError>(IceProbeError::Transcript(fault))
            })
            &&& terms.final_verdict(record, challenge) == (if same && record.stage is Complete {
                Ok::<(), IceProbeError>(())
            } else {
                Err::<(), IceProbeError>(
                    IceProbeError::Transcript(TranscriptFault::FinalCompletionBinding),
                )
            })
        }),
{
}

} // verus!
