//! What an authenticated endpoint says and takes, in plain terms.

use crate::bytes::be_digits;
use crate::control::{ControlKind, OutgoingControl, ReceivedControl};
use crate::error::ProtocolError;
use crate::media::{key_of, PacketView};
use crate::reassembly::OutcomeView;
use crate::session::{
    auth_tag, body_of, is_pinned, mixed, mixed_rounds, stirred, tag_seed, turned,
    AuthenticateMessage, EndpointView, ExpectedState, HandshakeCompletedMessage, HandshakeState,
    HelloAckMessage, HelloMessage, SocketError, DEFAULT_MAX_SOCKET_DATAGRAM,
};
use vstd::prelude::*;

verus! {

/// A socket carries datagrams of 1200 bytes unless told otherwise.
pub proof fn law_socket_datagram_size()
    ensures
        DEFAULT_MAX_SOCKET_DATAGRAM == 1_200,
{
}

/// `agreed` is `wanted`, or where that is out of range the nearer of 1200 and
/// 1450.
pub open spec fn is_safe_size(agreed: usize, wanted: int) -> bool {
    &&& 1_200 <= wanted <= 1_450 ==> agreed == wanted
    &&& wanted < 1_200 ==> agreed == 1_200
    &&& wanted > 1_450 ==> agreed == 1_450
}

/// Both ends settle on the smaller of what they can carry, moved into the safe
/// range. The host answers with it and the client takes it from the answer,
/// with the session and its epoch.
pub proof fn law_smaller_path_size_is_agreed(
    view: EndpointView,
    hello: HelloMessage,
    ack: HelloAckMessage,
)
    ensures
        hello.proposed_mtu <= view.path_mtu ==> is_safe_size(
            view.agreed_mtu(hello),
            hello.proposed_mtu as int,
        ),
        hello.proposed_mtu >= view.path_mtu ==> is_safe_size(
            view.agreed_mtu(hello),
            view.path_mtu as int,
        ),
        ({
            let joined = view.acknowledged(ack);
            &&& is_safe_size(joined.path_mtu, ack.negotiated_mtu as int)
            &&& joined.session_id == ack.session_id
            &&& joined.authorization_epoch == ack.authorization_epoch
            &&& joined == (EndpointView {
                path_mtu: joined.path_mtu,
                session_id: joined.session_id,
                authorization_epoch: joined.authorization_epoch,
                ..view
            })
        }),
{
}

/// A greeting names the version, the nonce, the device and the path of its
/// sender. Writing it moves the handshake on, and only then.
pub proof fn law_greeting_describes_its_sender(
    view: EndpointView,
    fingerprint: [u8; 32],
    client_nonce: [u8; 16],
)
    requires
        view.path_mtu <= 0xffff,
    ensures
        ({
            let hello = view.hello(fingerprint, client_nonce);
            &&& hello.client_version == view.wire_version
            &&& hello.client_nonce == client_nonce
            &&& hello.device_fingerprint == fingerprint
            &&& hello.capabilities_mask == 1
            &&& hello.proposed_mtu == view.path_mtu
        }),
        view.initiating(client_nonce).state == view.state,
        view.initiating(client_nonce).after_hello() == (EndpointView {
            state: HandshakeState::HelloSent { client_nonce },
            pending: None,
            ..view
        }),
        view.pending is None ==> view.after_hello() == view && view.after_hello_ack() == view,
{
}

/// A host answers a decoded greeting of a pinned device with its own version
/// and nonce, the session, the epoch and the agreed size. It keeps the nonces
/// and the device. A device that is not pinned fails the handshake. A client
/// answers no greeting.
pub proof fn law_pinned_devices_are_greeted(
    view: EndpointView,
    hello: HelloMessage,
    outer_id: u64,
    pinned: Seq<[u8; 32]>,
    server_nonce: [u8; 16],
    session_id: u64,
    epoch: u32,
)
    ensures
        ({
            let packet = Ok(
                ReceivedControl { kind: ControlKind::Hello, session_id: outer_id, body: Ok(hello) },
            );
            let known = exists|i: int|
                0 <= i < pinned.len() && (#[trigger] pinned[i])@ == hello.device_fingerprint@;
            let step = view.greeting(packet, pinned, server_nonce, session_id, epoch);
            &&& view.role is Client ==> step == (
                view,
                Err::<OutgoingControl<HelloAckMessage>, SocketError>(
                    SocketError::InvalidHandshakeRole,
                ),
            )
            &&& view.role is Host && !known ==> step == (
                EndpointView { state: HandshakeState::Failed, pending: None, ..view },
                Err::<OutgoingControl<HelloAckMessage>, SocketError>(
                    SocketError::DeviceNotPinned(hello.device_fingerprint),
                ),
            )
            &&& view.role is Host && known ==> {
                let answer = step.1->Ok_0;
                let agreed = view.agreed_mtu(hello);
                &&& step.1 is Ok
                &&& answer.kind is HelloAck
                &&& answer.session_id == session_id
                &&& answer.body.server_version == view.wire_version
                &&& answer.body.server_nonce == server_nonce
                &&& answer.body.session_id == session_id
                &&& answer.body.authorization_epoch == epoch
                &&& answer.body.negotiated_mtu == agreed
                &&& step.0 == (EndpointView {
                    pending: Some(
                        HandshakeState::HelloAckSent {
                            server_nonce,
                            client_nonce: hello.client_nonce,
                            device_fingerprint: hello.device_fingerprint,
                        },
                    ),
                    path_mtu: agreed,
                    session_id,
                    authorization_epoch: epoch,
                    ..view
                })
                &&& step.0.after_hello_ack() == (EndpointView {
                    state: HandshakeState::HelloAckSent {
                        server_nonce,
                        client_nonce: hello.client_nonce,
                        device_fingerprint: hello.device_fingerprint,
                    },
                    pending: None,
                    ..step.0
                })
            }
        }),
{
    assert(is_pinned(pinned, hello.device_fingerprint) <==> exists|i: int|
        0 <= i < pinned.len() && (#[trigger] pinned[i])@ == hello.device_fingerprint@);
}

/// A record is read exactly if it was decoded and is of the kind that is due.
pub proof fn law_records_are_of_the_kind_that_is_due<T>(
    packet: ReceivedControl<T>,
    kind: ControlKind,
    error: ProtocolError,
)
    ensures
        body_of::<T>(Err(error), kind) == Err::<T, SocketError>(SocketError::Protocol(error)),
        packet.kind != kind ==> body_of(Ok(packet), kind) == Err::<T, SocketError>(
            SocketError::UnexpectedControlKind(packet.kind),
        ),
        packet.kind == kind ==> body_of(Ok(packet), kind) == (match packet.body {
            Ok(body) => Ok::<T, SocketError>(body),
            Err(error) => Err::<T, SocketError>(SocketError::Protocol(error)),
        }),
{
}

/// A peer is who it says exactly if it names this session and its epoch.
pub proof fn law_peers_name_the_session_and_its_epoch(
    view: EndpointView,
    session_id: u64,
    epoch: u32,
)
    ensures
        view.identity_fault(session_id, epoch) is None <==> (session_id == view.session_id && epoch
            == view.authorization_epoch),
        session_id != view.session_id ==> view.identity_fault(session_id, epoch) == Some(
            SocketError::SessionIdMismatch { expected: view.session_id, actual: session_id },
        ),
        session_id == view.session_id && epoch != view.authorization_epoch ==> view.identity_fault(
            session_id,
            epoch,
        ) == Some(SocketError::EpochMismatch { expected: view.authorization_epoch, actual: epoch }),
{
}

/// A host that answered a greeting becomes active exactly if it gets the proof
/// of the session, the epoch and both nonces under the shared secret, and says
/// so with its nonce. A wrong proof fails the handshake; a proof of another
/// session or epoch, or one that is not due, changes nothing.
pub proof fn law_right_proof_activates_the_host(
    view: EndpointView,
    auth: AuthenticateMessage,
    outer_id: u64,
    secret: Seq<u8>,
)
    ensures
        ({
            let packet = Ok(
                ReceivedControl {
                    kind: ControlKind::Authenticate,
                    session_id: outer_id,
                    body: Ok(auth),
                },
            );
            let step = view.authenticating(packet, secret);
            &&& view.state matches HandshakeState::HelloAckSent {
                server_nonce,
                client_nonce,
                ..
            } ==> {
                let ours = auth.session_id == view.session_id && auth.authorization_epoch
                    == view.authorization_epoch;
                let right = auth.auth_tag@ == auth_tag(
                    secret,
                    view.session_id,
                    view.authorization_epoch,
                    client_nonce@,
                    server_nonce@,
                );
                &&& !ours ==> step.0 == view && step.1 is Err
                &&& ours && !right ==> step == (
                    EndpointView { state: HandshakeState::Failed, pending: None, ..view },
                    Err::<OutgoingControl<HandshakeCompletedMessage>, SocketError>(
                        SocketError::AuthenticationFailed,
                    ),
                )
                &&& ours && right ==> {
                    let answer = step.1->Ok_0;
                    &&& step.1 is Ok
                    &&& step.0 == (EndpointView {
                        state: HandshakeState::Active,
                        pending: None,
                        ..view
                    })
                    &&& answer.kind is HandshakeCompleted
                    &&& answer.session_id == view.session_id
                    &&& answer.body.session_id == view.session_id
                    &&& answer.body.authorization_epoch == view.authorization_epoch
                    &&& answer.body.server_nonce == server_nonce
                }
            }
            &&& !(view.state is HelloAckSent) ==> step == (
                view,
                Err::<OutgoingControl<HandshakeCompletedMessage>, SocketError>(
                    SocketError::InvalidHandshakeState {
                        expected: ExpectedState::HelloAckSent,
                        actual: view.state,
                    },
                ),
            )
        }),
{
}

/// A client becomes active exactly if the host completes the handshake of this
/// session and epoch. Anything else changes nothing.
pub proof fn law_completion_activates_the_client(
    view: EndpointView,
    packet: ReceivedControl<HandshakeCompletedMessage>,
)
    ensures
        ({
            let step = view.completing(Ok(packet));
            let right = packet.kind is HandshakeCompleted && packet.body is Ok
                && packet.body->Ok_0.session_id == view.session_id
                && packet.body->Ok_0.authorization_epoch == view.authorization_epoch;
            &&& right ==> step == (
                EndpointView { state: HandshakeState::Active, pending: None, ..view },
                Ok::<(), SocketError>(()),
            )
            &&& !right ==> step.0 == view && step.1 is Err
        }),
{
}

/// Frames are sent on stream one at the codec epoch of the endpoint, with what
/// the caller says of them.
pub proof fn law_frames_are_sent_on_stream_one(
    view: EndpointView,
    kind: u8,
    flags: u16,
    frame_id: u64,
    dependency_frame_id: Option<u64>,
)
    ensures
        ({
            let spec = view.media_spec(kind, flags, frame_id, dependency_frame_id);
            &&& spec.stream_id == 1
            &&& spec.codec_epoch == view.codec_epoch
            &&& spec.kind == kind
            &&& spec.flags == flags
            &&& spec.frame_id == frame_id
            &&& spec.dependency_frame_id == dependency_frame_id
        }),
{
}

/// A media datagram of a frame not delivered before goes to reassembly as it
/// came, and its outcome comes back. A numbered frame that completes counts as
/// delivered from then on, and nothing else does.
pub proof fn law_new_frames_go_to_reassembly(
    view: EndpointView,
    datagram_len: usize,
    packet: PacketView,
    now_ns: u64,
    error: ProtocolError,
)
    ensures
        view.taking_media(datagram_len, Err(error), now_ns) == (
            view,
            Err::<OutcomeView, SocketError>(SocketError::Protocol(error)),
        ),
        packet.header.frame_id == 0 || !view.delivered.contains(key_of(packet.header)) ==> {
            let step = view.taking_media(datagram_len, Ok(packet), now_ns);
            let inner = view.reassembler.ingesting(datagram_len, Ok(packet), now_ns);
            let completes = inner.1 is Ok && inner.1->Ok_0 is Complete;
            &&& step.1 == (match inner.1 {
                Ok(outcome) => Ok::<OutcomeView, SocketError>(outcome),
                Err(error) => Err::<OutcomeView, SocketError>(SocketError::Transport(error)),
            })
            &&& step.0.reassembler == inner.0
            &&& completes && packet.header.frame_id != 0 ==> step.0.delivered
                == view.delivered.insert(key_of(packet.header))
            &&& !completes || packet.header.frame_id == 0 ==> step.0.delivered == view.delivered
            &&& step.0 == (EndpointView {
                reassembler: step.0.reassembler,
                delivered: step.0.delivered,
                ..view
            })
        },
{
}

// ---------------------------------------------------------------------------
// The tag
// ---------------------------------------------------------------------------
/// Turning a byte moves its upper three bits below its lower five.
pub proof fn law_turning_moves_three_bits(value: u8)
    ensures
        turned(value) == 8 * (value % 32) + value / 32,
{
    assert(((value << 3) | (value >> 5)) == 8 * (value % 32) + value / 32) by (bit_vector);
}

/// The tag starts from the secret under a mask, with the session in its first
/// eight bytes, the epoch twice in the next eight, and both nonces in the rest.
pub proof fn law_seed_holds_every_input(
    secret: Seq<u8>,
    session_id: u64,
    epoch: u32,
    client_nonce: Seq<u8>,
    server_nonce: Seq<u8>,
    index: int,
)
    requires
        0 <= index < 32,
    ensures
        ({
            let seed = tag_seed(secret, session_id, epoch, client_nonce, server_nonce);
            let masked = secret[index] ^ 92;
            &&& seed.len() == 32
            &&& index < 8 ==> seed[index] == masked ^ be_digits(session_id as int, 8)[index]
            &&& 8 <= index < 12 ==> seed[index] == masked ^ be_digits(epoch as int, 4)[index - 8]
            &&& 12 <= index < 16 ==> seed[index] == masked ^ be_digits(epoch as int, 4)[index - 12]
            &&& 16 <= index ==> seed[index] == masked ^ (client_nonce[index - 16]
                ^ server_nonce[index - 16])
        }),
{
}

/// In a round every byte is changed once, in order, by its neighbours in the
/// ring of 32: the one before it, which in all but the first case was changed
/// already, and the one after it, which was not but for the last.
pub proof fn law_round_stirs_every_byte_once(state: Seq<u8>, round: u8, count: int)
    requires
        state.len() == 32,
        0 <= count < 32,
    ensures
        ({
            let before = mixed(state, round, count);
            let after = mixed(state, round, count + 1);
            let left = if count == 0 {
                before[31]
            } else {
                before[count - 1]
            };
            let right = if count == 31 {
                before[0]
            } else {
                before[count + 1]
            };
            let sum = before[count] + (left ^ round);
            let wrapped = (if sum >= 256 {
                sum - 256
            } else {
                sum
            }) as u8;
            &&& before.len() == 32
            &&& after.len() == 32
            &&& after[count] == turned(wrapped) ^ right
            &&& forall|i: int| 0 <= i < 32 && i != count ==> #[trigger] after[i] == before[i]
        }),
        mixed(state, round, 0) == state,
    decreases count,
{
    if count > 0 {
        law_round_stirs_every_byte_once(state, round, count - 1);
    }
    let before = mixed(state, round, count);
    assert(mixed(state, round, count + 1) == before.update(
        count,
        stirred(before[count], before[(count + 31) % 32], before[(count + 1) % 32], round),
    ));
    assert((count + 31) % 32 == if count == 0 {
        31
    } else {
        count - 1
    });
    assert((count + 1) % 32 == if count == 31 {
        0
    } else {
        count + 1
    });
}

/// The tag takes four rounds, numbered from zero.
pub proof fn law_tag_takes_four_rounds(
    secret: Seq<u8>,
    session_id: u64,
    epoch: u32,
    client_nonce: Seq<u8>,
    server_nonce: Seq<u8>,
)
    ensures
        auth_tag(secret, session_id, epoch, client_nonce, server_nonce) == ({
            let seed = tag_seed(secret, session_id, epoch, client_nonce, server_nonce);
            mixed(mixed(mixed(mixed(seed, 0, 32), 1, 32), 2, 32), 3, 32)
        }),
{
    reveal_with_fuel(mixed_rounds, 5);
}

} // verus!
