//! How a session moves from one route to the other, in plain terms.

use crate::bytes::be_digits;
use crate::control::{ControlKind, ReceivedControl, SessionStamp};
use crate::error::ProtocolError;
use crate::product::{PrivateControl, ProductProtocolViolation, ProductSessionError};
use crate::quic::QuicTransportError;
use crate::route::{
    binding_fault, epoch_fault, exporter_context, route_transcript, same_transition, BindingView,
    RouteLane, RouteTransitionMessage, RouteTransitionStage, RouteTransitionViolation,
    RouteWireState,
};
use crate::routes::{
    next_ticket, RouteActivationState, RouteSetView, ROUTE_SET_REVOKED_CODE,
    ROUTE_TRANSITION_TIMEOUT_MS,
};
use vstd::prelude::*;

verus! {

/// A transition may take three seconds. Two routes that lost authority close
/// with a number of their own.
pub proof fn law_transition_limits()
    ensures
        ROUTE_TRANSITION_TIMEOUT_MS == 3_000,
        ROUTE_SET_REVOKED_CODE == 259,
{
}

/// Every stage travels in a record of its own kind.
pub proof fn law_stages_have_their_kinds(stage: RouteTransitionStage)
    ensures
        stage is Prepare <==> stage.kind() is RoutePrepare,
        stage is Prepared <==> stage.kind() is RoutePrepared,
        stage is Commit <==> stage.kind() is RouteCommit,
        stage is Activated <==> stage.kind() is RouteActivated,
        stage is Confirmed <==> stage.kind() is RouteConfirmed,
{
}

/// Two records speak of one transition exactly if they differ in nothing but
/// their version and stage. Moving a record to a stage changes only the stage.
pub proof fn law_one_transition_has_one_description(
    first: RouteTransitionMessage,
    second: RouteTransitionMessage,
    stage: RouteTransitionStage,
)
    ensures
        same_transition(first, second) <==> first == (RouteTransitionMessage {
            version: first.version,
            stage: first.stage,
            ..second
        }),
        first.at(stage).stage == stage,
        first.at(stage) == (RouteTransitionMessage { stage: first.at(stage).stage, ..first }),
{
}

// ---------------------------------------------------------------------------
// Bindings
// ---------------------------------------------------------------------------
/// A binding covers a record exactly if both digests are its own.
pub proof fn law_binding_covers_its_digests(binding: BindingView, message: RouteTransitionMessage)
    ensures
        binding.covers(message) <==> (binding.route_digest == message.route_digest
            && binding.transcript_digest == message.transcript_digest),
{
}

/// The first digit of a number is the one that counts most.
pub proof fn law_first_digit_counts_most(value: u32)
    ensures
        be_digits(value as int, 4).len() == 4,
        be_digits(value as int, 4)[0] == value / 16_777_216,
        be_digits(value as int, 4)[1] == value / 65_536 % 256,
        be_digits(value as int, 4)[2] == value / 256 % 256,
        be_digits(value as int, 4)[3] == value % 256,
{
    reveal_with_fuel(be_digits, 5);
}

proof fn lemma_digit_count(value: int, count: nat)
    ensures
        be_digits(value, count).len() == count,
    decreases count,
{
    if count > 0 {
        lemma_digit_count(value / 256, (count - 1) as nat);
    }
}

/// The context of an exporter holds every part of the stamp in order, and then
/// the digest of the route.
pub proof fn law_context_holds_the_whole_stamp(stamp: SessionStamp, digest: Seq<u8>)
    requires
        digest.len() == 32,
    ensures
        ({
            let context = exporter_context(stamp, digest);
            &&& context.len() == 68
            &&& context.subrange(0, 8) == be_digits(stamp.session_id as int, 8)
            &&& context.subrange(8, 16) == be_digits(stamp.generation as int, 8)
            &&& context.subrange(16, 20) == be_digits(stamp.authorization_epoch as int, 4)
            &&& context.subrange(20, 24) == be_digits(stamp.display_epoch as int, 4)
            &&& context.subrange(24, 28) == be_digits(stamp.codec_epoch as int, 4)
            &&& context.subrange(28, 36) == be_digits(stamp.route_epoch as int, 8)
            &&& context.subrange(36, 68) == digest
        }),
{
    lemma_digit_count(stamp.session_id as int, 8);
    lemma_digit_count(stamp.generation as int, 8);
    lemma_digit_count(stamp.authorization_epoch as int, 4);
    lemma_digit_count(stamp.display_epoch as int, 4);
    lemma_digit_count(stamp.codec_epoch as int, 4);
    lemma_digit_count(stamp.route_epoch as int, 8);
}

/// A transcript starts with its label and ends with the exporter's bytes and
/// the context.
pub proof fn law_transcript_is_labelled(exporter: Seq<u8>, context: Seq<u8>)
    ensures
        ({
            let label = "latencydesk/product-route-transcript/v1"@;
            let transcript = route_transcript(exporter, context);
            &&& label.len() == 39
            &&& transcript.len() == 39 + exporter.len() + context.len()
            &&& forall|i: int| 0 <= i < 39 ==> #[trigger] transcript[i] == label[i] as u8
            &&& transcript.subrange(39, 39 + exporter.len() as int) == exporter
            &&& transcript.skip(39 + exporter.len() as int) == context
        }),
{
    reveal_strlit("latencydesk/product-route-transcript/v1");
}

/// Thirty-two bytes, all of them zero.
pub open spec fn is_blank(digest: [u8; 32]) -> bool {
    forall|i: int| 0 <= i < 32 ==> #[trigger] digest@[i] == 0
}

/// A route is bound exactly if its digest is not blank, the peer showed a
/// certificate, and the connection exports its transcript.
pub proof fn law_routes_with_a_peer_are_bound(
    route_digest: [u8; 32],
    chain: Seq<Seq<u8>>,
    exporter: Seq<u8>,
    error: QuicTransportError,
)
    ensures
        binding_fault(route_digest, Ok(chain), Ok(exporter)) is None <==> (!is_blank(route_digest)
            && chain.len() > 0),
        is_blank(route_digest) ==> binding_fault(route_digest, Ok(chain), Ok(exporter)) == Some(
            ProductSessionError::RouteTransition(RouteTransitionViolation::InvalidBinding),
        ),
        !is_blank(route_digest) && chain.len() == 0 ==> binding_fault(
            route_digest,
            Ok(chain),
            Ok(exporter),
        ) == Some(
            ProductSessionError::RouteTransition(RouteTransitionViolation::PeerIdentityMismatch),
        ),
        !is_blank(route_digest) ==> binding_fault(route_digest, Err(error), Ok(exporter)) == Some(
            ProductSessionError::Quic(error),
        ),
        !is_blank(route_digest) && chain.len() > 0 ==> binding_fault(
            route_digest,
            Ok(chain),
            Err(error),
        ) == Some(ProductSessionError::Quic(error)),
{
    assert(crate::bytes::is_zero_digest(route_digest) <==> is_blank(route_digest));
}

// ---------------------------------------------------------------------------
// The exchange
// ---------------------------------------------------------------------------
/// A peer at rest prepares, one that was asked answers, and one that was
/// answered commits, all for one transition. Nothing else is sent.
pub proof fn law_steps_are_sent_in_order(wire: RouteWireState, message: RouteTransitionMessage)
    ensures
        message.stage is Prepare ==> wire.after_sending(message) == (if wire is Idle {
            Some(RouteWireState::PrepareSent(message))
        } else {
            None
        }),
        message.stage is Prepared ==> wire.after_sending(message) == (match wire {
            RouteWireState::PrepareReceived(earlier) => if same_transition(earlier, message) {
                Some(RouteWireState::PreparedSent(message))
            } else {
                None
            },
            _ => None,
        }),
        message.stage is Commit ==> wire.after_sending(message) == (match wire {
            RouteWireState::PreparedReceived(earlier) => if same_transition(earlier, message) {
                Some(RouteWireState::Idle)
            } else {
                None
            },
            _ => None,
        }),
        message.stage is Activated || message.stage is Confirmed ==> wire.after_sending(message)
            is None,
{
}

/// What one peer may send next, the other may take next, and both move alike.
pub proof fn law_steps_are_taken_in_order(
    sender: RouteWireState,
    receiver: RouteWireState,
    message: RouteTransitionMessage,
)
    requires
        sender is Idle <==> receiver is Idle,
        sender matches RouteWireState::PrepareReceived(earlier) ==> receiver
            == RouteWireState::PrepareSent(earlier),
        sender matches RouteWireState::PreparedReceived(earlier) ==> receiver
            == RouteWireState::PreparedSent(earlier),
        sender.after_sending(message) is Some,
    ensures
        receiver.after_receiving(message) == Some(
            match message.stage {
                RouteTransitionStage::Prepare => RouteWireState::PrepareReceived(message),
                RouteTransitionStage::Prepared => RouteWireState::PreparedReceived(message),
                _ => RouteWireState::Idle,
            },
        ),
{
}

/// Nothing is taken that is not the next step of the transition under way.
pub proof fn law_only_the_next_step_is_taken(wire: RouteWireState, message: RouteTransitionMessage)
    requires
        wire.after_receiving(message) is Some,
    ensures
        message.stage is Prepare ==> wire is Idle,
        message.stage is Prepared ==> wire is PrepareSent && same_transition(
            wire->PrepareSent_0,
            message,
        ),
        message.stage is Commit ==> wire is PreparedSent && same_transition(
            wire->PreparedSent_0,
            message,
        ),
        message.stage is Prepare || message.stage is Prepared || message.stage is Commit,
{
}

// ---------------------------------------------------------------------------
// One route
// ---------------------------------------------------------------------------
/// The stamp of a route is that of its session at the epoch of the route.
pub proof fn law_stamp_shows_the_route_epoch(lane: RouteLane)
    ensures
        lane.current().route_epoch == lane.route_epoch,
        lane.current() == (SessionStamp { route_epoch: lane.current().route_epoch, ..lane.stamp }),
{
}

/// An epoch moves exactly from the present one to the one after it.
pub proof fn law_epochs_move_by_one(lane: RouteLane, expected_current: u64, requested_next: u64)
    ensures
        epoch_fault(lane, expected_current, requested_next) is None <==> (lane.route_epoch
            == expected_current && requested_next == lane.route_epoch + 1),
        epoch_fault(lane, expected_current, requested_next) is Some ==> epoch_fault(
            lane,
            expected_current,
            requested_next,
        ) == Some(
            ProductSessionError::RouteEpochTransition {
                expected_current,
                actual_current: lane.route_epoch,
                requested_next,
            },
        ),
{
}

/// A record is in order exactly if it starts from the present epoch and, where
/// it opens a transition, has the number after the last one.
pub proof fn law_transitions_are_numbered(lane: RouteLane, message: RouteTransitionMessage)
    requires
        lane.route_sequence < 0xffff_ffff_ffff_ffff,
    ensures
        lane.due_sequence() == lane.route_sequence + 1,
        lane.order_fault(message) is None <==> (message.base_route_epoch == lane.route_epoch && (
        message.stage is Prepare ==> message.sequence == lane.route_sequence + 1)),
        message.base_route_epoch != lane.route_epoch ==> lane.order_fault(message) == Some(
            RouteTransitionViolation::RouteEpoch {
                expected: lane.route_epoch,
                actual: message.base_route_epoch,
            },
        ),
        message.base_route_epoch == lane.route_epoch && lane.order_fault(message) is Some
            ==> lane.order_fault(message) == Some(
            RouteTransitionViolation::Sequence {
                expected: (lane.route_sequence + 1) as u64,
                actual: message.sequence,
            },
        ),
{
}

/// A record may be sent exactly if the codec takes it, it is in order and it is
/// the next step. What fails first is told.
pub proof fn law_records_in_order_may_be_sent(
    lane: RouteLane,
    message: RouteTransitionMessage,
    valid: Result<(), ProtocolError>,
    encoded: Result<(), ProtocolError>,
)
    ensures
        ({
            let verdict = lane.send_fault(message, valid, encoded);
            let in_order = lane.order_fault(message) is None;
            let next = lane.wire.after_sending(message) is Some;
            &&& verdict is None <==> (valid is Ok && in_order && next && encoded is Ok)
            &&& valid matches Err(error) ==> verdict == Some(
                RouteTransitionViolation::Malformed(error),
            )
            &&& valid is Ok && !in_order ==> verdict == lane.order_fault(message)
            &&& valid is Ok && in_order && !next ==> verdict == Some(
                RouteTransitionViolation::InvalidState,
            )
            &&& valid is Ok && in_order && next && encoded is Err ==> verdict == Some(
                RouteTransitionViolation::Malformed(encoded->Err_0),
            )
        }),
{
}

/// A commit that was sent moves the route to the next epoch and remembers its
/// number. Every other step moves the exchange alone.
pub proof fn law_sent_commit_moves_the_route(lane: RouteLane, message: RouteTransitionMessage)
    requires
        lane.wire.after_sending(message) is Some,
        message.base_route_epoch == lane.route_epoch,
        message.next_route_epoch == lane.route_epoch + 1,
    ensures
        ({
            let step = lane.sending(message);
            let next = lane.wire.after_sending(message)->Some_0;
            &&& step.1 == Ok::<(), ProductSessionError>(())
            &&& step.0.wire == next
            &&& step.0.stamp == lane.stamp
            &&& step.0.authorized == lane.authorized
            &&& message.stage is Commit ==> step.0.route_epoch == lane.route_epoch + 1
                && step.0.route_sequence == message.sequence
            &&& !(message.stage is Commit) ==> step.0.route_epoch == lane.route_epoch
                && step.0.route_sequence == lane.route_sequence
        }),
{
}

/// A record is taken exactly if it is of a route kind, was decoded, its stage
/// fits its kind, the binding covers it, and it is in order and next.
pub proof fn law_covered_records_in_order_are_taken(
    lane: RouteLane,
    binding: Option<BindingView>,
    kind: ControlKind,
    message: RouteTransitionMessage,
    error: ProtocolError,
)
    ensures
        ({
            let routes = kind is RoutePrepare || kind is RoutePrepared || kind is RouteCommit
                || kind is RouteActivated || kind is RouteConfirmed;
            let fits = message.stage.kind() == kind;
            let covered = binding is None || (binding->Some_0.route_digest == message.route_digest
                && binding->Some_0.transcript_digest == message.transcript_digest);
            let in_order = lane.order_fault(message) is None;
            let next = lane.wire.after_receiving(message) is Some;
            let verdict = lane.receive_fault(binding, PrivateControl { kind, body: Ok(message) });
            let refused = lane.receive_fault(binding, PrivateControl { kind, body: Err(error) });
            &&& verdict is None <==> (routes && fits && covered && in_order && next)
            &&& !routes ==> refused == verdict && verdict == Some(
                RouteTransitionViolation::UnexpectedKind(kind),
            )
            &&& routes ==> refused == Some(RouteTransitionViolation::Malformed(error))
            &&& routes && !fits ==> verdict == Some(
                RouteTransitionViolation::StageKindMismatch { stage: message.stage, kind },
            )
            &&& routes && fits && !covered ==> verdict == Some(
                RouteTransitionViolation::BindingMismatch,
            )
            &&& routes && fits && covered && !in_order ==> verdict == lane.order_fault(message)
            &&& routes && fits && covered && in_order && !next ==> verdict == Some(
                RouteTransitionViolation::InvalidState,
            )
        }),
{
}

/// A commit that was taken moves the route to its next epoch and remembers its
/// number. Every other step moves the exchange alone.
pub proof fn law_taken_commit_moves_the_route(lane: RouteLane, message: RouteTransitionMessage)
    requires
        lane.wire.after_receiving(message) is Some,
    ensures
        ({
            let after = lane.after_receiving(message);
            &&& Some(after.wire) == lane.wire.after_receiving(message)
            &&& after.stamp == lane.stamp
            &&& after.authorized == lane.authorized
            &&& message.stage is Commit ==> after.route_epoch == message.next_route_epoch
                && after.route_sequence == message.sequence
            &&& !(message.stage is Commit) ==> after.route_epoch == lane.route_epoch
                && after.route_sequence == lane.route_sequence
        }),
{
}

/// The new route is activated exactly by the record of that stage, for the
/// committed transition, of this session, under the present stamp and covered
/// by the binding of the route.
pub proof fn law_activation_repeats_the_commit(
    lane: RouteLane,
    binding: BindingView,
    commit: RouteTransitionMessage,
    stage: RouteTransitionStage,
    carried: SessionStamp,
    kind: ControlKind,
    session_id: u64,
    message: RouteTransitionMessage,
    error: ProtocolError,
)
    ensures
        ({
            let present = carried == (SessionStamp { route_epoch: lane.route_epoch, ..lane.stamp });
            let right = session_id == lane.stamp.session_id && kind == stage.kind()
                && message.stage == stage && same_transition(message, commit)
                && message.route_digest == binding.route_digest && message.transcript_digest
                == binding.transcript_digest;
            let verdict = lane.activation_fault(
                binding,
                commit,
                stage,
                carried,
                Ok(ReceivedControl { kind, session_id, body: Ok(message) }),
            );
            &&& verdict is None <==> (present && right)
            &&& !present ==> verdict == Some(
                ProductSessionError::PeerProtocol(
                    ProductProtocolViolation::StampMismatch {
                        expected: lane.current(),
                        actual: carried,
                    },
                ),
            )
            &&& present && !right ==> verdict == Some(
                ProductSessionError::PeerProtocol(
                    ProductProtocolViolation::RouteTransition(
                        RouteTransitionViolation::BindingMismatch,
                    ),
                ),
            )
            &&& present ==> lane.activation_fault(binding, commit, stage, carried, Err(error))
                == Some(
                ProductSessionError::PeerProtocol(ProductProtocolViolation::MalformedControl(error)),
            )
            &&& present ==> lane.activation_fault(
                binding,
                commit,
                stage,
                carried,
                Ok(ReceivedControl { kind, session_id, body: Err(error) }),
            ) == Some(
                ProductSessionError::PeerProtocol(
                    ProductProtocolViolation::RouteTransition(
                        RouteTransitionViolation::Malformed(error),
                    ),
                ),
            )
        }),
{
}

/// The other route follows a commit: it moves if it is where the commit starts,
/// stays if it is where the commit ends, and else refuses.
pub proof fn law_other_route_follows_the_commit(lane: RouteLane, message: RouteTransitionMessage)
    requires
        message.next_route_epoch == message.base_route_epoch + 1,
    ensures
        lane.following(message) is Ok <==> (lane.route_epoch == message.base_route_epoch
            || lane.route_epoch == message.next_route_epoch),
        lane.following(message) matches Ok(after) ==> after == (RouteLane {
            route_epoch: message.next_route_epoch,
            route_sequence: message.sequence,
            ..lane
        }),
        lane.following(message) is Err ==> lane.following(message) == Err::<
            RouteLane,
            ProductSessionError,
        >(
            ProductSessionError::RouteEpochTransition {
                expected_current: message.base_route_epoch,
                actual_current: lane.route_epoch,
                requested_next: message.next_route_epoch,
            },
        ),
{
}

// ---------------------------------------------------------------------------
// Two routes
// ---------------------------------------------------------------------------
/// Of two routes one is in use and the other stands by.
pub proof fn law_the_other_route_stands_by(set: RouteSetView, lane: RouteLane)
    requires
        set.active <= 1,
    ensures
        set.standby() <= 1,
        set.standby() != set.active,
        set.lane(0) == set.first,
        set.lane(1) == set.second,
        set.binding(0) == set.first_binding,
        set.binding(1) == set.second_binding,
        set.with_lane(0, lane) == (RouteSetView { first: lane, ..set }),
        set.with_lane(1, lane) == (RouteSetView { second: lane, ..set }),
{
}

/// Two routes form a set exactly if they are two connections of one session
/// with one peer, and each has bindings of its own that are not blank and are
/// of its connection. The first thing that fails is told.
pub proof fn law_two_routes_of_one_session_form_a_set(
    active: RouteLane,
    active_binding: BindingView,
    active_connection: usize,
    active_chain: Seq<Seq<u8>>,
    candidate: RouteLane,
    candidate_binding: BindingView,
    candidate_connection: usize,
    candidate_chain: Seq<Seq<u8>>,
    error: QuicTransportError,
)
    ensures
        ({
            let bound = !is_blank(active_binding.route_digest) && !is_blank(
                active_binding.transcript_digest,
            ) && !is_blank(candidate_binding.route_digest) && !is_blank(
                candidate_binding.transcript_digest,
            ) && active_binding.route_digest != candidate_binding.route_digest
                && active_binding.transcript_digest != candidate_binding.transcript_digest
                && active_binding.connection_id == active_connection
                && candidate_binding.connection_id == candidate_connection;
            let two = active_connection != candidate_connection;
            let one_session = active.current() == candidate.current();
            let one_chain = active_chain == candidate_chain;
            let one_peer = active_binding.peer_fingerprint == candidate_binding.peer_fingerprint;
            let verdict = RouteSetView::forming_fault(
                active,
                active_binding,
                active_connection,
                Ok(active_chain),
                candidate,
                candidate_binding,
                candidate_connection,
                Ok(candidate_chain),
            );
            &&& verdict is None <==> (bound && two && one_session && one_chain && one_peer)
            &&& !bound ==> verdict == Some(
                ProductSessionError::RouteTransition(RouteTransitionViolation::InvalidBinding),
            )
            &&& bound && !two ==> verdict == Some(
                ProductSessionError::RouteTransition(RouteTransitionViolation::DuplicateConnection),
            )
            &&& bound && two && !one_session ==> verdict == Some(
                ProductSessionError::RouteTransition(RouteTransitionViolation::SessionMismatch),
            )
            &&& bound && two && one_session && !one_chain ==> verdict == Some(
                ProductSessionError::RouteTransition(RouteTransitionViolation::PeerIdentityMismatch),
            )
            &&& bound && two && one_session && one_chain && !one_peer ==> verdict == Some(
                ProductSessionError::RouteTransition(RouteTransitionViolation::InvalidBinding),
            )
            &&& bound && two && one_session ==> RouteSetView::forming_fault(
                active,
                active_binding,
                active_connection,
                Err(error),
                candidate,
                candidate_binding,
                candidate_connection,
                Ok(candidate_chain),
            ) == Some(ProductSessionError::Quic(error)) && RouteSetView::forming_fault(
                active,
                active_binding,
                active_connection,
                Ok(active_chain),
                candidate,
                candidate_binding,
                candidate_connection,
                Err(error),
            ) == Some(ProductSessionError::Quic(error))
        }),
{
    assert(crate::bytes::is_zero_digest(active_binding.route_digest) <==> is_blank(
        active_binding.route_digest,
    ));
    assert(crate::bytes::is_zero_digest(active_binding.transcript_digest) <==> is_blank(
        active_binding.transcript_digest,
    ));
    assert(crate::bytes::is_zero_digest(candidate_binding.route_digest) <==> is_blank(
        candidate_binding.route_digest,
    ));
    assert(crate::bytes::is_zero_digest(candidate_binding.transcript_digest) <==> is_blank(
        candidate_binding.transcript_digest,
    ));
}

/// A transition to the route that stands by is opened over the route in use,
/// and goes on over the route it was opened over.
pub proof fn law_transition_stays_on_its_route(set: RouteSetView, message: RouteTransitionMessage)
    requires
        set.active <= 1,
    ensures
        ({
            let target = set.binding((1 - set.active) as usize);
            let covered = target.route_digest == message.route_digest && target.transcript_digest
                == message.transcript_digest;
            let route = set.carrier(message);
            &&& !covered ==> route == Err::<usize, RouteTransitionViolation>(
                RouteTransitionViolation::BindingMismatch,
            )
            &&& covered && message.stage is Prepare && set.transition_route is None ==> route
                == Ok::<usize, RouteTransitionViolation>(set.active)
            &&& covered && (message.stage is Prepared || message.stage is Commit)
                && set.transition_route is Some ==> route == Ok::<usize, RouteTransitionViolation>(
                set.transition_route->Some_0,
            )
            &&& covered && message.stage is Prepare && set.transition_route is Some ==> route
                == Err::<usize, RouteTransitionViolation>(RouteTransitionViolation::InvalidState)
            &&& covered && !(message.stage is Prepare) && set.transition_route is None ==> route
                == Err::<usize, RouteTransitionViolation>(RouteTransitionViolation::InvalidState)
            &&& covered && (message.stage is Activated || message.stage is Confirmed) ==> route
                == Err::<usize, RouteTransitionViolation>(RouteTransitionViolation::InvalidState)
        }),
{
}

/// A rollback opens over the route that stands by, exactly while the route in
/// use has no authority and no transition is under way.
pub proof fn law_rollback_needs_a_failed_route(set: RouteSetView, message: RouteTransitionMessage)
    requires
        set.active <= 1,
    ensures
        ({
            let target = set.binding((1 - set.active) as usize);
            let covered = target.route_digest == message.route_digest && target.transcript_digest
                == message.transcript_digest;
            let failed = !(if set.active == 0 {
                set.first.authorized
            } else {
                set.second.authorized
            });
            let idle = set.transition_route is None && set.activation is Idle;
            let verdict = set.rollback_fault(message);
            &&& verdict is None <==> (message.stage is Prepare && idle && failed && covered)
            &&& !(message.stage is Prepare && idle && failed) ==> verdict == Some(
                RouteTransitionViolation::InvalidState,
            )
            &&& message.stage is Prepare && idle && failed && !covered ==> verdict == Some(
                RouteTransitionViolation::BindingMismatch,
            )
        }),
{
}

/// Revoking takes authority from both routes and changes nothing else. A record
/// that may not be sent revokes both.
pub proof fn law_refused_offer_revokes(
    set: RouteSetView,
    route: usize,
    message: RouteTransitionMessage,
    valid: Result<(), ProtocolError>,
    encoded: Result<(), ProtocolError>,
)
    requires
        route <= 1,
    ensures
        !set.revoked().first.authorized,
        !set.revoked().second.authorized,
        set.revoked().first == (RouteLane { authorized: false, ..set.first }),
        set.revoked().second == (RouteLane { authorized: false, ..set.second }),
        set.revoked() == (RouteSetView {
            first: set.revoked().first,
            second: set.revoked().second,
            ..set
        }),
        ({
            let lane = if route == 0 {
                set.first
            } else {
                set.second
            };
            match lane.send_fault(message, valid, encoded) {
                None => set.offering(route, message, valid, encoded) == (
                    set,
                    Ok::<usize, ProductSessionError>(route),
                ),
                Some(violation) => set.offering(route, message, valid, encoded) == (
                    set.revoked(),
                    Err::<usize, ProductSessionError>(
                        ProductSessionError::RouteTransition(violation),
                    ),
                ),
            }
        }),
{
}

/// Opening a transition remembers its route and starts a new timer. A commit
/// moves both routes to the next epoch, ends the exchange, and waits for the
/// other route to be activated; the route in use stays in use.
pub proof fn law_sent_steps_move_the_set(
    set: RouteSetView,
    route: usize,
    message: RouteTransitionMessage,
)
    requires
        route <= 1,
        set.timer < 0xffff_ffff_ffff_ffff,
        set.first.route_epoch == set.second.route_epoch,
        message.base_route_epoch == set.first.route_epoch,
        message.next_route_epoch == set.first.route_epoch + 1,
        set.lane(route).wire.after_sending(message) is Some,
    ensures
        ({
            let step = set.sending(route, message);
            let lane = set.lane(route);
            let moved = set.with_lane(
                route,
                RouteLane { wire: lane.wire.after_sending(message)->Some_0, ..lane },
            );
            &&& step.1 == Ok::<(), ProductSessionError>(())
            &&& message.stage is Prepare ==> step.0 == (RouteSetView {
                transition_route: Some(route),
                timer: (set.timer + 1) as u64,
                ..moved
            })
            &&& message.stage is Prepared ==> step.0 == moved
            &&& message.stage is Commit ==> step.0 == (RouteSetView {
                first: RouteLane {
                    route_epoch: message.next_route_epoch,
                    route_sequence: message.sequence,
                    ..moved.first
                },
                second: RouteLane {
                    route_epoch: message.next_route_epoch,
                    route_sequence: message.sequence,
                    ..moved.second
                },
                activation: RouteActivationState::AwaitingActivated {
                    previous: set.active,
                    commit: message,
                },
                transition_route: None,
                ..moved
            })
        }),
{
}

/// A peer that is asked to prepare remembers the route and starts a new timer,
/// and if it was asked over the route that stands by, the route in use loses
/// authority. A commit moves both routes and is answered over the other one.
pub proof fn law_taken_steps_move_the_set(
    set: RouteSetView,
    route: usize,
    kind: ControlKind,
    message: RouteTransitionMessage,
)
    requires
        route <= 1,
        set.active <= 1,
        set.timer < 0xffff_ffff_ffff_ffff,
        set.first.route_epoch == set.second.route_epoch,
        message.next_route_epoch == message.base_route_epoch + 1,
        set.lane(route).receive_fault(
            Some(set.binding((1 - set.active) as usize)),
            PrivateControl { kind, body: Ok(message) },
        ) is None,
    ensures
        ({
            let step = set.receiving(route, PrivateControl { kind, body: Ok(message) });
            let lane = set.lane(route);
            let moved = set.with_lane(
                route,
                RouteLane { wire: lane.wire.after_receiving(message)->Some_0, ..lane },
            );
            let lanes = if route != set.active {
                moved.with_lane(
                    set.active,
                    RouteLane { authorized: false, ..moved.lane(set.active) },
                )
            } else {
                moved
            };
            &&& message.stage is Prepare && set.transition_route is None ==> step.0 == (
            RouteSetView {
                transition_route: Some(route),
                timer: (set.timer + 1) as u64,
                ..lanes
            }) && step.1 is Ok && step.1->Ok_0.message == message && step.1->Ok_0.reply is None
            &&& message.stage is Prepare && set.transition_route is Some ==> step.1 is Err
                && step.1->Err_0 == ProductSessionError::RouteTransition(
                RouteTransitionViolation::InvalidState,
            )
            &&& !(message.stage is Prepare) && set.transition_route != Some(route) ==> step.1 is Err
                && step.1->Err_0 == ProductSessionError::RouteTransition(
                RouteTransitionViolation::WrongActiveRoute,
            )
            &&& message.stage is Prepared && set.transition_route == Some(route) ==> step.0 == moved
                && step.1 is Ok && step.1->Ok_0.message == message && step.1->Ok_0.reply is None
            &&& message.stage is Commit && set.transition_route == Some(route) ==> step.0 == (
            RouteSetView {
                first: RouteLane {
                    route_epoch: message.next_route_epoch,
                    route_sequence: message.sequence,
                    ..moved.first
                },
                second: RouteLane {
                    route_epoch: message.next_route_epoch,
                    route_sequence: message.sequence,
                    ..moved.second
                },
                ..moved
            }) && step.1 is Ok && step.1->Ok_0.message == message && step.1->Ok_0.reply == Some(
                (
                    (1 - set.active) as usize,
                    RouteTransitionMessage { stage: RouteTransitionStage::Activated, ..message },
                ),
            )
        }),
{
}

/// Switching gives authority to the other route alone and puts it in use. A
/// peer that announces this waits for it to be confirmed.
pub proof fn law_switching_hands_authority_over(set: RouteSetView, commit: RouteTransitionMessage)
    requires
        set.active <= 1,
    ensures
        ({
            let next = set.switched(set.active);
            &&& next.active == 1 - set.active
            &&& next.first == (RouteLane { authorized: set.active == 1, ..set.first })
            &&& next.second == (RouteLane { authorized: set.active == 0, ..set.second })
            &&& next == (RouteSetView {
                active: next.active,
                first: next.first,
                second: next.second,
                ..set
            })
            &&& set.activating(commit) == (RouteSetView {
                activation: RouteActivationState::AwaitingConfirmed { commit },
                transition_route: None,
                ..next
            })
        }),
{
}

/// Activation is awaited after a commit, over the route that was not in use,
/// and confirmation after activation, over the route in use.
pub proof fn law_activation_and_confirmation_are_awaited(set: RouteSetView, route: usize)
    requires
        set.active <= 1,
        route <= 1,
    ensures
        set.activation_fault(route) is None <==> (set.activation is AwaitingActivated
            && set.activation->previous == set.active && route != set.active),
        set.activation is AwaitingActivated && set.activation_fault(route) is Some
            ==> set.activation_fault(route) == Some(RouteTransitionViolation::WrongActiveRoute),
        !(set.activation is AwaitingActivated) ==> set.activation_fault(route) == Some(
            RouteTransitionViolation::InvalidState,
        ),
        set.confirmation_fault(route) is None <==> (set.activation is AwaitingConfirmed && route
            == set.active),
        set.activation is AwaitingConfirmed && route != set.active ==> set.confirmation_fault(route)
            == Some(RouteTransitionViolation::WrongActiveRoute),
        !(set.activation is AwaitingConfirmed) ==> set.confirmation_fault(route) == Some(
            RouteTransitionViolation::InvalidState,
        ),
{
}

/// A transition that settles starts a new timer, so that its own runs out
/// without effect.
pub proof fn law_settled_transition_stops_its_timer(set: RouteSetView)
    ensures
        set.settled().timer != set.timer,
        set.timer < 0xffff_ffff_ffff_ffff ==> set.settled().timer == set.timer + 1,
        set.settled().activation is Idle,
        set.settled() == (RouteSetView {
            timer: set.settled().timer,
            activation: RouteActivationState::Idle,
            ..set
        }),
        next_ticket(set.timer) != set.timer,
{
}

} // verus!
