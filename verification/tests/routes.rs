use latencydesk::control::{ControlKind, ReceivedControl, SessionStamp};
use latencydesk::error::ProtocolError;
use latencydesk::product::{
    active_stamp, PrivateControl, ProductProtocolViolation, ProductSessionError,
};
use latencydesk::quic::QuicTransportError;
use latencydesk::route::{
    bind_authenticated_route, check_route_activation, route_exporter_context,
    same_route_transition, RouteLane, RouteTransitionMessage, RouteTransitionStage,
    RouteTransitionViolation, RouteWireState, VerifiedRouteBinding,
};
use latencydesk::routes::ProductRouteSet;

#[test]
fn route_exporter_context_has_a_fixed_big_endian_layout() {
    let stamp = SessionStamp {
        session_id: 0x0102_0304_0506_0708,
        generation: 0x1112_1314_1516_1718,
        authorization_epoch: 0x2122_2324,
        display_epoch: 0x3132_3334,
        codec_epoch: 0x4142_4344,
        route_epoch: 0x5152_5354_5556_5758,
    };
    let context = route_exporter_context(stamp, [0x61; 32]);
    assert_eq!(
        &context[..36],
        &[
            0x01, 0x02, 0x03, 0x04, 0x05, 0x06, 0x07, 0x08, 0x11, 0x12, 0x13, 0x14, 0x15, 0x16,
            0x17, 0x18, 0x21, 0x22, 0x23, 0x24, 0x31, 0x32, 0x33, 0x34, 0x41, 0x42, 0x43, 0x44,
            0x51, 0x52, 0x53, 0x54, 0x55, 0x56, 0x57, 0x58,
        ]
    );
    assert_eq!(&context[36..], &[0x61; 32]);
}

fn stamp() -> SessionStamp {
    active_stamp(42)
}

fn binding(route: u8, connection_id: usize) -> VerifiedRouteBinding {
    bind_authenticated_route(
        stamp(),
        [route; 32],
        Ok(vec![b"peer certificate".to_vec()]),
        Ok(vec![route ^ 0xff; 32]),
        connection_id,
    )
    .expect("binding")
}

fn chain() -> Result<Vec<Vec<u8>>, QuicTransportError> {
    Ok(vec![b"peer certificate".to_vec()])
}

fn route_set() -> ProductRouteSet {
    ProductRouteSet::new(
        RouteLane::new(stamp()),
        binding(1, 10),
        10,
        chain(),
        RouteLane::new(stamp()),
        binding(2, 20),
        20,
        chain(),
    )
    .expect("set")
}

/// The next prepare, aimed at the standby route of the set.
fn prepare(set: &ProductRouteSet) -> RouteTransitionMessage {
    let standby = 1 - set.active_index();
    let (route_digest, transcript_digest) = set.binding(standby).transition_material();
    let lane = set.lane(set.active_index());
    RouteTransitionMessage {
        version: 1,
        stage: RouteTransitionStage::Prepare,
        sequence: lane.route_sequence + 1,
        base_route_epoch: lane.route_epoch,
        next_route_epoch: lane.route_epoch + 1,
        expires_at_ns: 1_000,
        route_digest,
        transcript_digest,
    }
}

fn private(message: RouteTransitionMessage) -> PrivateControl<RouteTransitionMessage> {
    PrivateControl {
        kind: message.stage.control_kind(),
        body: Ok(message),
    }
}

fn packet(
    message: RouteTransitionMessage,
) -> Result<ReceivedControl<RouteTransitionMessage>, ProtocolError> {
    Ok(ReceivedControl {
        kind: message.stage.control_kind(),
        session_id: 42,
        body: Ok(message),
    })
}

fn send(set: &mut ProductRouteSet, message: RouteTransitionMessage) -> usize {
    let route = set
        .send_route_transition(message, Ok(()), Ok(()))
        .expect("send");
    set.route_transition_sent(route, message).expect("sent");
    route
}

/// Runs the whole exchange that starts with this prepare on `route`.
fn hand_over(
    left: &mut ProductRouteSet,
    right: &mut ProductRouteSet,
    route: usize,
    first: RouteTransitionMessage,
) {
    right
        .next_route_transition(route, private(first))
        .expect("prepare");
    let prepared = first.at_stage(RouteTransitionStage::Prepared);
    assert_eq!(send(right, prepared), route);
    left.next_route_transition(route, private(prepared))
        .expect("prepared");
    let commit = first.at_stage(RouteTransitionStage::Commit);
    assert_eq!(send(left, commit), route);
    let step = right
        .next_route_transition(route, private(commit))
        .expect("commit");
    let (next, activated) = step.reply.expect("activation");
    right.route_activation_sent(commit);
    let carried = left.lane(next).stamp();
    let step = left
        .next_route_activation(next, carried, packet(activated))
        .expect("activated");
    let (confirm_on, confirmed) = step.reply.expect("confirmation");
    left.route_confirmation_sent();
    let carried = right.lane(confirm_on).stamp();
    right
        .next_route_confirmation(confirm_on, carried, packet(confirmed))
        .expect("confirmed");
}

#[test]
fn transition_hands_authority_over_on_both_peers() {
    let mut left = route_set();
    let mut right = route_set();
    let before = left.stamp().route_epoch;
    let first = prepare(&left);
    let route = send(&mut left, first);
    assert_eq!(route, 0);
    hand_over(&mut left, &mut right, route, first);
    for set in [&left, &right] {
        assert_eq!(set.active_index(), 1);
        assert!(set.lane(1).authorized);
        assert!(!set.lane(0).authorized);
        assert_eq!(set.stamp().route_epoch, before + 1);
        assert_eq!(set.lane(0).stamp(), set.lane(1).stamp());
    }
}

#[test]
fn rollback_runs_over_the_retained_route() {
    let mut left = route_set();
    let mut right = route_set();
    let first = prepare(&left);
    let route = send(&mut left, first);
    hand_over(&mut left, &mut right, route, first);
    left.fail_active_route();
    assert!(!left.lane(1).authorized);
    let rollback = prepare(&left);
    let retained = left
        .send_rollback_via_retained(rollback, Ok(()), Ok(()))
        .expect("rollback");
    assert_eq!(retained, 0);
    left.route_transition_sent(retained, rollback).expect("sent");
    hand_over(&mut left, &mut right, retained, rollback);
    assert_eq!(left.active_index(), 0);
    assert_eq!(right.active_index(), 0);
    assert!(left.lane(0).authorized);
}

#[test]
fn rollback_needs_a_failed_active_route() {
    let mut set = route_set();
    let message = prepare(&set);
    assert_eq!(
        set.send_rollback_via_retained(message, Ok(()), Ok(())),
        Err(ProductSessionError::RouteTransition(
            RouteTransitionViolation::InvalidState
        ))
    );
}

#[test]
fn refused_record_revokes_both_routes() {
    let mut set = route_set();
    let commit = prepare(&set).at_stage(RouteTransitionStage::Commit);
    assert_eq!(
        set.next_route_transition(0, private(commit)),
        Err(ProductSessionError::PeerProtocol(
            ProductProtocolViolation::RouteTransition(RouteTransitionViolation::InvalidState)
        ))
    );
    assert!(!set.lane(0).authorized);
    assert!(!set.lane(1).authorized);
}

#[test]
fn record_must_name_the_standby_route() {
    let mut set = route_set();
    let mut message = prepare(&set);
    message.transcript_digest = [9; 32];
    assert_eq!(
        set.send_route_transition(message, Ok(()), Ok(())),
        Err(ProductSessionError::RouteTransition(
            RouteTransitionViolation::BindingMismatch
        ))
    );
    assert!(set.lane(0).authorized);
    assert!(set.next_route_transition(0, private(message)).is_err());
    assert!(!set.lane(0).authorized);
}

#[test]
fn only_the_latest_timer_revokes() {
    let mut set = route_set();
    let old_ticket = set.transition_ticket();
    let message = prepare(&set);
    send(&mut set, message);
    assert!(!set.transition_expired(old_ticket));
    assert!(set.lane(0).authorized);
    let ticket = set.transition_ticket();
    assert!(set.transition_expired(ticket));
    assert!(!set.lane(0).authorized);
}

#[test]
fn routes_must_be_distinct_and_of_one_peer() {
    let form = |second: VerifiedRouteBinding,
                connection: usize,
                stamp: SessionStamp,
                chain: Result<Vec<Vec<u8>>, QuicTransportError>| {
        ProductRouteSet::new(
            RouteLane::new(self::stamp()),
            binding(1, 10),
            10,
            self::chain(),
            RouteLane::new(stamp),
            second,
            connection,
            chain,
        )
        .err()
    };
    let fault = |violation| Some(ProductSessionError::RouteTransition(violation));
    assert_eq!(form(binding(2, 20), 20, stamp(), chain()), None);
    assert_eq!(
        form(binding(2, 20), 21, stamp(), chain()),
        fault(RouteTransitionViolation::InvalidBinding)
    );
    assert_eq!(
        form(binding(1, 20), 20, stamp(), chain()),
        fault(RouteTransitionViolation::InvalidBinding)
    );
    assert_eq!(
        form(binding(2, 10), 10, stamp(), chain()),
        fault(RouteTransitionViolation::DuplicateConnection)
    );
    assert_eq!(
        form(binding(2, 20), 20, active_stamp(43), chain()),
        fault(RouteTransitionViolation::SessionMismatch)
    );
    assert_eq!(
        form(binding(2, 20), 20, stamp(), Ok(vec![b"other".to_vec()])),
        fault(RouteTransitionViolation::PeerIdentityMismatch)
    );
    assert_eq!(
        form(
            binding(2, 20),
            20,
            stamp(),
            Err(QuicTransportError::MissingPeerIdentity)
        ),
        Some(ProductSessionError::Quic(
            QuicTransportError::MissingPeerIdentity
        ))
    );
}

#[test]
fn binding_hashes_exporter_and_peer() {
    let first = binding(1, 10);
    let (route_digest, transcript) = first.transition_material();
    assert_eq!(route_digest, [1; 32]);
    assert_ne!(transcript, binding(2, 10).transition_material().1);
    let expected = latencydesk::identity::certificate_fingerprint(
        &[
            b"latencydesk/product-route-transcript/v1".to_vec(),
            vec![0xfe; 32],
            route_exporter_context(stamp(), [1; 32]),
        ]
        .concat(),
    );
    assert_eq!(transcript, expected);
    assert_eq!(
        bind_authenticated_route(stamp(), [0; 32], chain(), Ok(vec![1; 32]), 1).err(),
        Some(ProductSessionError::RouteTransition(
            RouteTransitionViolation::InvalidBinding
        ))
    );
    assert_eq!(
        bind_authenticated_route(stamp(), [1; 32], Ok(vec![]), Ok(vec![1; 32]), 1).err(),
        Some(ProductSessionError::RouteTransition(
            RouteTransitionViolation::PeerIdentityMismatch
        ))
    );
}

#[test]
fn epoch_moves_only_by_one_from_the_current() {
    let mut lane = RouteLane::new(stamp());
    let current = lane.route_epoch;
    assert!(lane.advance_route_epoch(current, current + 2).is_err());
    assert!(lane.advance_route_epoch(current + 1, current + 2).is_err());
    assert_eq!(lane.route_epoch, current);
    let moved = lane
        .advance_route_epoch(current, current + 1)
        .expect("epoch");
    assert_eq!(moved.route_epoch, current + 1);
    assert_eq!(lane.stamp(), moved);
    assert_eq!(
        lane.advance_route_epoch(current, current + 1),
        Err(ProductSessionError::RouteEpochTransition {
            expected_current: current,
            actual_current: current + 1,
            requested_next: current + 1,
        })
    );
}

#[test]
fn records_follow_prepare_prepared_commit() {
    let message = prepare(&route_set());
    let prepared = message.at_stage(RouteTransitionStage::Prepared);
    let commit = message.at_stage(RouteTransitionStage::Commit);
    let sent = RouteWireState::Idle.sent(message).expect("prepare");
    assert_eq!(sent, RouteWireState::PrepareSent(message));
    let answered = sent.received(prepared).expect("prepared");
    assert_eq!(answered.sent(commit).expect("commit"), RouteWireState::Idle);
    assert_eq!(
        RouteWireState::Idle.sent(commit),
        Err(RouteTransitionViolation::InvalidState)
    );
    let mut other = prepared;
    other.expires_at_ns += 1;
    assert!(!same_route_transition(prepared, other));
    assert_eq!(
        sent.received(other),
        Err(RouteTransitionViolation::InvalidState)
    );
}

#[test]
fn lane_refuses_wrong_sequence_and_epoch() {
    let mut lane = RouteLane::new(stamp());
    let message = prepare(&route_set());
    let mut late = message;
    late.sequence += 1;
    assert_eq!(
        lane.check_send(late, Ok(()), Ok(())),
        Err(ProductSessionError::RouteTransition(
            RouteTransitionViolation::Sequence {
                expected: message.sequence,
                actual: message.sequence + 1,
            }
        ))
    );
    let mut stale = message;
    stale.base_route_epoch += 5;
    assert_eq!(
        lane.check_send(stale, Ok(()), Ok(())),
        Err(ProductSessionError::RouteTransition(
            RouteTransitionViolation::RouteEpoch {
                expected: message.base_route_epoch,
                actual: message.base_route_epoch + 5,
            }
        ))
    );
    assert_eq!(
        lane.check_send(message, Err(ProtocolError::Malformed(7)), Ok(())),
        Err(ProductSessionError::RouteTransition(
            RouteTransitionViolation::Malformed(ProtocolError::Malformed(7))
        ))
    );
    let mismatched = PrivateControl {
        kind: ControlKind::RouteCommit,
        body: Ok(message),
    };
    assert_eq!(
        lane.receive_route_transition(None, mismatched),
        Err(ProductSessionError::PeerProtocol(
            ProductProtocolViolation::RouteTransition(
                RouteTransitionViolation::StageKindMismatch {
                    stage: RouteTransitionStage::Prepare,
                    kind: ControlKind::RouteCommit,
                }
            )
        ))
    );
    let foreign = PrivateControl {
        kind: ControlKind::Capabilities,
        body: Ok(message),
    };
    assert_eq!(
        lane.receive_route_transition(None, foreign),
        Err(ProductSessionError::PeerProtocol(
            ProductProtocolViolation::RouteTransition(RouteTransitionViolation::UnexpectedKind(
                ControlKind::Capabilities
            ))
        ))
    );
    assert_eq!(
        lane.receive_route_transition(None, private(message)),
        Ok(message)
    );
}

#[test]
fn activation_records_have_their_own_stages() {
    let message = prepare(&route_set());
    assert!(check_route_activation(&message, Ok(())).is_err());
    assert!(check_route_activation(
        &message.at_stage(RouteTransitionStage::Activated),
        Ok(())
    )
    .is_ok());
    assert!(check_route_activation(
        &message.at_stage(RouteTransitionStage::Confirmed),
        Err(ProtocolError::Malformed(1))
    )
    .is_err());
    let mut set = route_set();
    assert_eq!(
        set.next_route_activation(1, stamp(), packet(message)),
        Err(ProductSessionError::RouteTransition(
            RouteTransitionViolation::InvalidState
        ))
    );
    assert_eq!(
        set.next_route_confirmation(0, stamp(), packet(message)),
        Err(ProductSessionError::RouteTransition(
            RouteTransitionViolation::InvalidState
        ))
    );
    assert_eq!(
        set.next_control(1),
        Err(ProductSessionError::RouteTransition(
            RouteTransitionViolation::WrongActiveRoute
        ))
    );
    assert_eq!(set.next_control(0), Ok(()));
    set.close();
    assert!(!set.lane(0).authorized);
}

#[test]
fn nothing_is_awaited_or_sent_out_of_turn() {
    let invalid_state =
        ProductSessionError::RouteTransition(RouteTransitionViolation::InvalidState);
    let wrong_route =
        ProductSessionError::RouteTransition(RouteTransitionViolation::WrongActiveRoute);
    let mut left = route_set();
    let mut right = route_set();
    let first = prepare(&left);
    let commit = first.at_stage(RouteTransitionStage::Commit);
    assert_eq!(left.expect_send(first), Ok(0));
    assert_eq!(left.expect_send(commit), Err(invalid_state));
    assert_eq!(left.expect_rollback(first), Err(invalid_state));
    assert_eq!(left.expect_route_activation(1), Err(invalid_state));
    assert_eq!(left.expect_route_confirmation(1), Err(invalid_state));
    send(&mut left, first);
    assert_eq!(left.expect_send(first), Err(invalid_state));
    assert_eq!(left.expect_route_transition(0), Ok(()));
    assert_eq!(left.expect_route_transition(1), Err(wrong_route));
    right
        .next_route_transition(0, private(first))
        .expect("prepare");
    let prepared = first.at_stage(RouteTransitionStage::Prepared);
    send(&mut right, prepared);
    left.next_route_transition(0, private(prepared))
        .expect("prepared");
    assert_eq!(left.expect_send(commit), Ok(0));
    send(&mut left, commit);
    assert_eq!(left.expect_route_activation(0), Err(wrong_route));
    assert_eq!(left.expect_route_activation(1), Ok(commit));
    right
        .next_route_transition(0, private(commit))
        .expect("commit");
    right.route_activation_sent(commit);
    assert_eq!(right.expect_route_confirmation(0), Err(wrong_route));
    assert_eq!(right.expect_route_confirmation(1), Ok(commit));
    left.fail_active_route();
    assert!(!left.lane(0).authorized);
}
