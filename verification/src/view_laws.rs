//! How values, results and records are seen, field by field.

use crate::chars::stands_at;
use crate::control::{OutgoingControl, SessionStamp, StreamKind};
use crate::error::{ProtocolError, TransportError};
use crate::fragment::packet_views;
use crate::ice::{
    read_as, signaled_by, CredentialsView, IceError, IceRole, SignaledCredentials,
};
use crate::ice_run::{ControlCall, IceRunControlView};
use crate::lab::{arrival_views, datagram_bytes, found_view, revision, LabArrival};
use crate::media::{MediaPacket, PacketView};
use crate::product::{
    is_publication, media_view, step_view, DeliveredFrame, MediaStep, ProductSessionError,
    ReceivedMedia,
};
use crate::quic::{InboundLanes, QuicTransportError};
use crate::reassembly::{
    decoded_view, result_view, stored_bytes, FragmentView, IngestOutcome, OutcomeView,
    ReassembledFrame,
};
use crate::route::{
    binding_view, chain_view, exporter_view, remote_fault, RouteTransitionViolation,
    VerifiedRouteBinding,
};
use crate::session::{
    auth_tag, delivered, is_proof, media_outcome_view, AuthenticateMessage,
    HandshakeCompletedMessage, HelloAckMessage, SocketError,
};
use crate::simulator::{delivered_views, queue_bytes, DeliveredPacket, QueuedView};
use crate::text::{decimal, listed};
use crate::turn::{AttributeView, TurnAttribute, TurnMessage};
use vstd::prelude::*;

verus! {

/// A frame that is delivered is seen with its header, its bytes and its two
/// times; going on is seen as nothing; an error is itself.
pub proof fn law_steps_are_seen_as_they_are(frame: ReassembledFrame, error: ProductSessionError)
    ensures
        step_view(Ok(MediaStep::Deliver(frame))) == Ok::<
            Option<DeliveredFrame>,
            ProductSessionError,
        >(
            Some(
                DeliveredFrame {
                    header: frame.header,
                    bytes: frame.bytes@,
                    first_fragment_ns: frame.first_fragment_ns,
                    completed_ns: frame.completed_ns,
                },
            ),
        ),
        step_view(Ok(MediaStep::Continue)) == Ok::<Option<DeliveredFrame>, ProductSessionError>(
            None,
        ),
        step_view(Err(error)) == Err::<Option<DeliveredFrame>, ProductSessionError>(error),
{
}

/// What reassembly answers is seen field by field.
pub proof fn law_outcomes_are_seen_as_they_are(
    outcome: IngestOutcome,
    frame: ReassembledFrame,
    error: TransportError,
    refusal: SocketError,
)
    ensures
        result_view(Err(error)) == Err::<OutcomeView, TransportError>(error),
        result_view(Ok(outcome)) == Ok::<OutcomeView, TransportError>(outcome@),
        media_outcome_view(Err(refusal)) == Err::<OutcomeView, SocketError>(refusal),
        media_outcome_view(Ok(outcome)) == Ok::<OutcomeView, SocketError>(outcome@),
        outcome matches IngestOutcome::Pending { key, received_bytes } ==> outcome@
            == (OutcomeView::Pending { key, received_bytes: received_bytes as nat }),
        outcome matches IngestOutcome::Duplicate { key } ==> outcome@ == (OutcomeView::Duplicate {
            key,
        }),
        IngestOutcome::Complete(frame)@ == (OutcomeView::Complete {
            header: frame.header,
            bytes: frame.bytes@,
            first_fragment_ns: frame.first_fragment_ns,
            completed_ns: frame.completed_ns,
        }),
{
}

/// Packets, datagrams and rows of them are seen one by one.
pub proof fn law_rows_are_seen_one_by_one(
    packets: Seq<MediaPacket>,
    arrived: Seq<DeliveredPacket>,
    arrivals: Seq<LabArrival>,
    datagrams: Seq<Vec<u8>>,
    packet: MediaPacket,
    media: ReceivedMedia,
    error: ProtocolError,
    index: int,
)
    requires
        0 <= index,
    ensures
        packet_views(packets).len() == packets.len(),
        index < packets.len() ==> packet_views(packets)[index] == packets[index]@,
        delivered_views(arrived).len() == arrived.len(),
        index < arrived.len() ==> {
            let seen = delivered_views(arrived)[index];
            &&& seen.delivery_ns == arrived[index].delivery_ns
            &&& seen.packet.id == arrived[index].packet.id
            &&& seen.packet.lane == arrived[index].packet.lane
            &&& seen.packet.send_ns == arrived[index].packet.send_ns
            &&& seen.packet.deadline_ns == arrived[index].packet.deadline_ns
            &&& seen.packet.bytes == arrived[index].packet.bytes@
        },
        arrival_views(arrivals).len() == arrivals.len(),
        index < arrivals.len() ==> {
            let seen = arrival_views(arrivals)[index];
            &&& seen.delivery_ns == arrivals[index].delivery_ns
            &&& seen.datagram_len == arrivals[index].datagram_len
            &&& seen.packet == decoded_view(arrivals[index].packet)
        },
        datagram_bytes(datagrams).len() == datagrams.len(),
        index < datagrams.len() ==> datagram_bytes(datagrams)[index] == datagrams[index]@,
        decoded_view(Ok(packet)) == Ok::<PacketView, ProtocolError>(packet@),
        decoded_view(Err(error)) == Err::<PacketView, ProtocolError>(error),
        media_view(Err(error)) is Err && media_view(Err(error))->Err_0 == error,
        media_view(Ok(media)) is Ok && media_view(Ok(media))->Ok_0.stamp == media.stamp
            && media_view(Ok(media))->Ok_0.inner_len == media.inner_len && media_view(
            Ok(media),
        )->Ok_0.packet == decoded_view(media.packet),
{
}

/// Optional bytes and revisions are seen as what they hold.
pub proof fn law_options_are_seen_as_they_are(
    bytes: Vec<u8>,
    exporter: Vec<u8>,
    chain: Vec<Vec<u8>>,
    error: QuicTransportError,
    binding: VerifiedRouteBinding,
    violation: RouteTransitionViolation,
    commit: &str,
    index: int,
)
    ensures
        found_view(Some(bytes)) == Some(bytes@),
        found_view(None) is None,
        exporter_view(Ok(exporter)) == Ok::<Seq<u8>, QuicTransportError>(exporter@),
        exporter_view(Err(error)) == Err::<Seq<u8>, QuicTransportError>(error),
        chain_view(Err(error)) == Err::<Seq<Seq<u8>>, QuicTransportError>(error),
        chain_view(Ok(chain)) is Ok && chain_view(Ok(chain))->Ok_0.len() == chain@.len(),
        0 <= index < chain@.len() ==> chain_view(Ok(chain))->Ok_0[index] == chain@[index]@,
        binding_view(Some(binding)) == Some(binding@),
        binding_view(None) is None,
        remote_fault(violation) is PeerProtocol,
        remote_fault(violation)->PeerProtocol_0 is RouteTransition,
        remote_fault(violation)->PeerProtocol_0->RouteTransition_0 == violation,
        revision(Some(commit)) == commit@,
        revision(None) == "unknown"@,
{
}

/// Every attribute of a relay message is seen under its own kind, and every
/// message with all of its parts.
pub proof fn law_attributes_are_seen_as_they_are(
    attribute: TurnAttribute,
    message: TurnMessage,
    index: int,
)
    ensures
        attribute matches TurnAttribute::Username(value) ==> attribute@ == AttributeView::Username(
            value@,
        ),
        attribute matches TurnAttribute::Realm(value) ==> attribute@ == AttributeView::Realm(value@),
        attribute matches TurnAttribute::Nonce(value) ==> attribute@ == AttributeView::Nonce(value@),
        attribute matches TurnAttribute::RequestedTransport(value) ==> attribute@
            == AttributeView::RequestedTransport(value),
        attribute matches TurnAttribute::Lifetime(value) ==> attribute@ == AttributeView::Lifetime(
            value,
        ),
        attribute matches TurnAttribute::ChannelNumber(value) ==> attribute@
            == AttributeView::ChannelNumber(value),
        attribute matches TurnAttribute::XorPeerAddress(value) ==> attribute@
            == AttributeView::XorPeerAddress(value),
        attribute matches TurnAttribute::XorRelayedAddress(value) ==> attribute@
            == AttributeView::XorRelayedAddress(value),
        attribute matches TurnAttribute::ErrorCode(value) ==> attribute@
            == AttributeView::ErrorCode(value),
        message@.class == message.class,
        message@.method == message.method,
        message@.transaction_id == message.transaction_id@,
        message@.attributes.len() == message.attributes@.len(),
        0 <= index < message.attributes@.len() ==> message@.attributes[index]
            == message.attributes@[index]@,
{
}

/// What is queued weighs what its packets do.
pub proof fn law_queue_weighs_its_packets(queue: Seq<QueuedView>, one: QueuedView)
    ensures
        queue_bytes(Seq::empty()) == 0,
        queue_bytes(seq![one] + queue) == one.packet.bytes.len() + queue_bytes(queue),
{
    assert((seq![one] + queue).skip(1) =~= queue);
}

/// What is stored of a frame is the sum of its fragments.
pub proof fn law_stored_bytes_are_summed(fragments: Seq<FragmentView>, one: FragmentView)
    ensures
        stored_bytes(Seq::empty()) == 0,
        stored_bytes(fragments.push(one)) == stored_bytes(fragments) + one.bytes.len(),
{
    assert(fragments.push(one).drop_last() =~= fragments);
}

/// A lane is open exactly if its own mark is set.
pub proof fn law_lanes_have_their_own_marks(lanes: InboundLanes)
    ensures
        lanes.has(StreamKind::Control) == lanes.control,
        lanes.has(StreamKind::Input) == lanes.input,
{
}

/// A call on the control of a run sets its own mark and no other.
pub proof fn law_calls_set_their_own_mark(view: IceRunControlView)
    ensures
        view.told(ControlCall::Cancel) == (IceRunControlView {
            cancelled: true,
            nominated: view.nominated,
            handoff: view.handoff,
        }),
        view.told(ControlCall::ReportNominated) == (IceRunControlView {
            cancelled: view.cancelled,
            nominated: true,
            handoff: view.handoff,
        }),
        view.told(ControlCall::RequestHandoff) == (IceRunControlView {
            cancelled: view.cancelled,
            nominated: view.nominated,
            handoff: true,
        }),
{
}

/// A record proves a client exactly if it is of that kind, carries the session
/// outside and inside, its epoch and the nonce, and the tag of all of them and
/// of the nonce of the host.
pub proof fn law_proofs_are_of_the_whole_handshake(
    record: OutgoingControl<AuthenticateMessage>,
    ack: HelloAckMessage,
    client_nonce: [u8; 16],
    secret: Seq<u8>,
)
    ensures
        is_proof(record, ack, client_nonce, secret) <==> (record.kind is Authenticate
            && record.session_id == ack.session_id && record.body.session_id == ack.session_id
            && record.body.authorization_epoch == ack.authorization_epoch
            && record.body.client_nonce == client_nonce && record.body.auth_tag@ == auth_tag(
            secret,
            ack.session_id,
            ack.authorization_epoch,
            client_nonce@,
            ack.server_nonce@,
        )),
{
}

/// A record publishes a stamp exactly if it completes a handshake, carries the
/// session of the stamp outside and inside and its authorization, and no nonce.
pub proof fn law_publications_carry_the_stamp(
    record: OutgoingControl<HandshakeCompletedMessage>,
    stamp: SessionStamp,
)
    ensures
        is_publication(record, stamp) <==> (record.kind is HandshakeCompleted && record.session_id
            == stamp.session_id && record.body.session_id == stamp.session_id
            && record.body.authorization_epoch == stamp.authorization_epoch && forall|i: int|
            0 <= i < 16 ==> #[trigger] record.body.server_nonce@[i] == 0),
{
}

/// A record arrives with what was sent.
pub proof fn law_records_arrive_as_they_were_sent<T>(sent: OutgoingControl<T>)
    ensures
        delivered(sent) is Ok,
        delivered(sent)->Ok_0.kind == sent.kind,
        delivered(sent)->Ok_0.session_id == sent.session_id,
        delivered(sent)->Ok_0.body == Ok::<T, ProtocolError>(sent.body),
{
}

/// Signaled credentials carry the exchange, the generation, the role and both
/// texts, and are read back exactly if they are credentials.
pub proof fn law_credentials_are_signaled_whole(
    credentials: CredentialsView,
    exchange_id: u64,
    generation: u32,
    role: IceRole,
    signaled: SignaledCredentials,
)
    ensures
        signaled_by(credentials, exchange_id, generation, role, signaled) <==> (
        signaled.exchange.exchange_id == exchange_id && signaled.exchange.generation == generation
            && signaled.exchange.role is Controlling == role is Controlling && signaled.ufrag@
            == credentials.ufrag && signaled.password@ == credentials.password),
        (CredentialsView { ufrag: signaled.ufrag@, password: signaled.password@ }).is_valid()
            ==> read_as(signaled) == Ok::<CredentialsView, IceError>(
            CredentialsView { ufrag: signaled.ufrag@, password: signaled.password@ },
        ),
        !(CredentialsView { ufrag: signaled.ufrag@, password: signaled.password@ }).is_valid()
            ==> read_as(signaled) == Err::<CredentialsView, IceError>(IceError::InvalidCredentials),
{
}

/// A pattern stands somewhere in a text exactly if every one of its characters
/// does.
pub proof fn law_patterns_stand_character_by_character(
    text: Seq<char>,
    pattern: Seq<char>,
    at: int,
)
    ensures
        stands_at(text, pattern, at) <==> (0 <= at && at + pattern.len() <= text.len()
            && forall|i: int| 0 <= i < pattern.len() ==> text[at + i] == #[trigger] pattern[i]),
{
    if 0 <= at && at + pattern.len() <= text.len() {
        let part = text.subrange(at, at + pattern.len());
        assert forall|i: int| 0 <= i < pattern.len() implies #[trigger] part[i] == text[at + i] by {}
        if forall|i: int| 0 <= i < pattern.len() ==> text[at + i] == #[trigger] pattern[i] {
            assert(part =~= pattern);
        }
        if part == pattern {
            assert forall|i: int| 0 <= i < pattern.len() implies text[at + i]
                == #[trigger] pattern[i] by {
                assert(part[i] == text[at + i]);
            }
        }
    }
}

/// Bytes are listed as decimal numbers with a comma and a blank between them.
pub proof fn law_bytes_are_listed(values: Seq<u8>, value: u8)
    ensures
        listed(Seq::empty()) == Seq::<char>::empty(),
        listed(seq![value]) == decimal(value as nat),
        values.len() > 0 ==> listed(values.push(value)) == listed(values) + seq![',', ' ']
            + decimal(value as nat),
{
    reveal_strlit(", ");
    assert(", "@ =~= seq![',', ' ']);
    assert(values.push(value).drop_last() =~= values);
}

} // verus!
