//! Two authenticated connections for one session. Only one of them has
//! application authority; the other stays available for bounded rollback.

use crate::bytes::{bytes_equal, is_zero_digest};
use crate::control::{ReceivedControl, SessionStamp};
use crate::error::ProtocolError;
use crate::product::{PrivateControl, ProductSessionError};
use crate::quic::QuicTransportError;
use crate::route::{
    carrying, chain_bytes, chain_view, local, remote_fault, BindingView, RouteLane,
    RouteTransitionMessage, RouteTransitionStage, RouteTransitionViolation, RouteWireState,
    VerifiedRouteBinding,
};
use vstd::prelude::*;

verus! {

/// Local bound on a route transition, in milliseconds.
pub const ROUTE_TRANSITION_TIMEOUT_MS: u64 = 3_000;

/// Application error code for a revoked route set.
pub const ROUTE_SET_REVOKED_CODE: u32 = 0x103;

/// What a committed transition still waits for.
#[derive(Debug, Clone, Copy, PartialEq, Eq)]
pub enum RouteActivationState {
    Idle,
    AwaitingActivated { previous: usize, commit: RouteTransitionMessage },
    AwaitingConfirmed { commit: RouteTransitionMessage },
}

/// A record that a step took, and the record to write in answer to it.
#[derive(Debug, Clone, Copy, PartialEq, Eq)]
pub struct RouteStep {
    pub message: RouteTransitionMessage,
    /// The route to write on, and the record.
    pub reply: Option<(usize, RouteTransitionMessage)>,
}

/// A route set as mathematics sees it.
pub struct RouteSetView {
    pub first: RouteLane,
    pub second: RouteLane,
    pub first_binding: BindingView,
    pub second_binding: BindingView,
    pub active: usize,
    /// Number of the latest timer; an older timer does nothing when it fires.
    pub timer: u64,
    pub activation: RouteActivationState,
    /// The route that carries a transition under way.
    pub transition_route: Option<usize>,
}

/// The number after `value`, around the end.
pub open spec fn next_ticket(value: u64) -> u64 {
    if value == u64::MAX {
        0
    } else {
        (value + 1) as u64
    }
}

impl RouteSetView {
    /// One of the two routes.
    pub open spec fn lane(self, index: usize) -> RouteLane {
        if index == 0 {
            self.first
        } else {
            self.second
        }
    }

    /// The binding of one of the two routes.
    pub open spec fn binding(self, index: usize) -> BindingView {
        if index == 0 {
            self.first_binding
        } else {
            self.second_binding
        }
    }

    /// The set with one route changed.
    pub open spec fn with_lane(self, index: usize, lane: RouteLane) -> RouteSetView {
        if index == 0 {
            RouteSetView { first: lane, ..self }
        } else {
            RouteSetView { second: lane, ..self }
        }
    }

    /// The route that has no authority.
    pub open spec fn standby(self) -> usize {
        (1 - self.active) as usize
    }

    /// The set without any authority.
    pub open spec fn revoked(self) -> RouteSetView {
        RouteSetView {
            first: RouteLane { authorized: false, ..self.first },
            second: RouteLane { authorized: false, ..self.second },
            ..self
        }
    }

    /// Indexes name one of two routes, and the standby route has no authority.
    /// As long as the active route has authority, both routes belong to one
    /// session at one epoch.
    pub open spec fn is_valid(self) -> bool {
        &&& self.active <= 1
        &&& self.transition_route is Some ==> self.transition_route->Some_0 <= 1
        &&& self.activation is AwaitingActivated ==> self.activation->previous <= 1
        &&& !self.lane(self.standby()).authorized
        &&& self.lane(self.active).authorized ==> self.first.current() == self.second.current()
    }

    /// Why two routes cannot form a set.
    pub open spec fn forming_fault(
        active: RouteLane,
        active_binding: BindingView,
        active_connection: usize,
        active_chain: Result<Seq<Seq<u8>>, QuicTransportError>,
        candidate: RouteLane,
        candidate_binding: BindingView,
        candidate_connection: usize,
        candidate_chain: Result<Seq<Seq<u8>>, QuicTransportError>,
    ) -> Option<ProductSessionError> {
        if is_zero_digest(active_binding.route_digest) || is_zero_digest(
            active_binding.transcript_digest,
        ) || is_zero_digest(candidate_binding.route_digest) || is_zero_digest(
            candidate_binding.transcript_digest,
        ) || active_binding.route_digest == candidate_binding.route_digest
            || active_binding.transcript_digest == candidate_binding.transcript_digest
            || active_binding.connection_id != active_connection
            || candidate_binding.connection_id != candidate_connection {
            Some(ProductSessionError::RouteTransition(RouteTransitionViolation::InvalidBinding))
        } else if active_connection == candidate_connection {
            Some(
                ProductSessionError::RouteTransition(
                    RouteTransitionViolation::DuplicateConnection,
                ),
            )
        } else if active.current() != candidate.current() {
            Some(ProductSessionError::RouteTransition(RouteTransitionViolation::SessionMismatch))
        } else {
            match (active_chain, candidate_chain) {
                (Err(error), _) => Some(ProductSessionError::Quic(error)),
                (Ok(_), Err(error)) => Some(ProductSessionError::Quic(error)),
                (Ok(left), Ok(right)) => if left != right {
                    Some(
                        ProductSessionError::RouteTransition(
                            RouteTransitionViolation::PeerIdentityMismatch,
                        ),
                    )
                } else if active_binding.peer_fingerprint != candidate_binding.peer_fingerprint {
                    Some(
                        ProductSessionError::RouteTransition(
                            RouteTransitionViolation::InvalidBinding,
                        ),
                    )
                } else {
                    None
                },
            }
        }
    }

    /// The route that carries a record to be sent, or why none does.
    pub open spec fn carrier(self, message: RouteTransitionMessage) -> Result<
        usize,
        RouteTransitionViolation,
    > {
        if !self.binding(self.standby()).covers(message) {
            Err(RouteTransitionViolation::BindingMismatch)
        } else {
            match (message.stage, self.transition_route) {
                (RouteTransitionStage::Prepare, None) => Ok(self.active),
                (RouteTransitionStage::Prepared, Some(route)) => Ok(route),
                (RouteTransitionStage::Commit, Some(route)) => Ok(route),
                _ => Err(RouteTransitionViolation::InvalidState),
            }
        }
    }

    /// Why rollback over the retained route cannot start.
    pub open spec fn rollback_fault(self, message: RouteTransitionMessage) -> Option<
        RouteTransitionViolation,
    > {
        if message.stage != RouteTransitionStage::Prepare || self.transition_route is Some
            || !(self.activation is Idle) || self.lane(self.active).authorized {
            Some(RouteTransitionViolation::InvalidState)
        } else if !self.binding(self.standby()).covers(message) {
            Some(RouteTransitionViolation::BindingMismatch)
        } else {
            None
        }
    }

    /// The set before a record is written on `route`, and whether it may be.
    pub open spec fn offering(
        self,
        route: usize,
        message: RouteTransitionMessage,
        valid: Result<(), ProtocolError>,
        encoded: Result<(), ProtocolError>,
    ) -> (RouteSetView, Result<usize, ProductSessionError>) {
        match self.lane(route).send_fault(message, valid, encoded) {
            Some(violation) => (
                self.revoked(),
                Err(ProductSessionError::RouteTransition(violation)),
            ),
            None => (self, Ok(route)),
        }
    }

    /// The set with both epochs at the committed transition, or where that
    /// stopped.
    pub open spec fn following(self, message: RouteTransitionMessage) -> (
        RouteSetView,
        Result<(), ProductSessionError>,
    ) {
        match self.first.following(message) {
            Err(error) => (self, Err(error)),
            Ok(first) => match self.second.following(message) {
                Err(error) => (RouteSetView { first, ..self }, Err(error)),
                Ok(second) => (RouteSetView { first, second, ..self }, Ok(())),
            },
        }
    }

    /// The set after a record was written on `route`, and what that gave.
    pub open spec fn sending(self, route: usize, message: RouteTransitionMessage) -> (
        RouteSetView,
        Result<(), ProductSessionError>,
    ) {
        let step = self.lane(route).sending(message);
        let moved = self.with_lane(route, step.0);
        match step.1 {
            Err(error) => (moved.revoked(), Err(error)),
            Ok(()) => if message.stage == RouteTransitionStage::Commit {
                let followed = moved.following(message);
                match followed.1 {
                    Err(error) => (followed.0.revoked(), Err(error)),
                    Ok(()) => (
                        RouteSetView {
                            activation: RouteActivationState::AwaitingActivated {
                                previous: self.active,
                                commit: message,
                            },
                            transition_route: None,
                            ..followed.0
                        },
                        Ok(()),
                    ),
                }
            } else if message.stage == RouteTransitionStage::Prepare {
                (
                    RouteSetView {
                        transition_route: Some(route),
                        timer: next_ticket(self.timer),
                        ..moved
                    },
                    Ok(()),
                )
            } else {
                (moved, Ok(()))
            },
        }
    }

    /// The set after a record was read on `route`, and what that gave.
    pub open spec fn receiving(
        self,
        route: usize,
        private: PrivateControl<RouteTransitionMessage>,
    ) -> (RouteSetView, Result<RouteStep, ProductSessionError>) {
        match self.lane(route).receive_fault(Some(self.binding(self.standby())), private) {
            Some(violation) => (self.revoked(), Err(remote_fault(violation))),
            None => {
                let message = private.body->Ok_0;
                let moved = self.with_lane(route, self.lane(route).after_receiving(message));
                if message.stage == RouteTransitionStage::Prepare {
                    if self.transition_route is Some {
                        (
                            moved.revoked(),
                            Err(
                                ProductSessionError::RouteTransition(
                                    RouteTransitionViolation::InvalidState,
                                ),
                            ),
                        )
                    } else {
                        let begun = RouteSetView {
                            transition_route: Some(route),
                            timer: next_ticket(self.timer),
                            ..moved
                        };
                        let settled = if route != self.active {
                            begun.with_lane(
                                self.active,
                                RouteLane { authorized: false, ..begun.lane(self.active) },
                            )
                        } else {
                            begun
                        };
                        (settled, Ok(RouteStep { message, reply: None }))
                    }
                } else if self.transition_route != Some(route) {
                    (
                        moved.revoked(),
                        Err(
                            ProductSessionError::RouteTransition(
                                RouteTransitionViolation::WrongActiveRoute,
                            ),
                        ),
                    )
                } else if message.stage == RouteTransitionStage::Commit {
                    let followed = moved.following(message);
                    match followed.1 {
                        Err(error) => (followed.0.revoked(), Err(error)),
                        Ok(()) => (
                            followed.0,
                            Ok(
                                RouteStep {
                                    message,
                                    reply: Some(
                                        (
                                            self.standby(),
                                            message.at(RouteTransitionStage::Activated),
                                        ),
                                    ),
                                },
                            ),
                        ),
                    }
                } else {
                    (moved, Ok(RouteStep { message, reply: None }))
                }
            },
        }
    }

    /// The set with authority moved from `previous` to the other route.
    pub open spec fn switched(self, previous: usize) -> RouteSetView {
        let next = (1 - previous) as usize;
        let old_lane = RouteLane { authorized: false, ..self.lane(previous) };
        let new_lane = RouteLane { authorized: true, ..self.lane(next) };
        RouteSetView {
            active: next,
            ..self.with_lane(previous, old_lane).with_lane(next, new_lane)
        }
    }

    /// The set of the peer that took a commit, once its activation is written.
    pub open spec fn activating(self, commit: RouteTransitionMessage) -> RouteSetView {
        RouteSetView {
            activation: RouteActivationState::AwaitingConfirmed { commit },
            transition_route: None,
            ..self.switched(self.active)
        }
    }

    /// Why no activation is due on `route`.
    pub open spec fn activation_fault(self, route: usize) -> Option<RouteTransitionViolation> {
        match self.activation {
            RouteActivationState::AwaitingActivated { previous, .. } => if self.active != previous
                || route != 1 - previous {
                Some(RouteTransitionViolation::WrongActiveRoute)
            } else {
                None
            },
            _ => Some(RouteTransitionViolation::InvalidState),
        }
    }

    /// Why no confirmation is due on `route`.
    pub open spec fn confirmation_fault(self, route: usize) -> Option<RouteTransitionViolation> {
        match self.activation {
            RouteActivationState::AwaitingConfirmed { .. } => if route != self.active {
                Some(RouteTransitionViolation::WrongActiveRoute)
            } else {
                None
            },
            _ => Some(RouteTransitionViolation::InvalidState),
        }
    }

    /// The set at rest again, with its timer out of date.
    pub open spec fn settled(self) -> RouteSetView {
        RouteSetView {
            activation: RouteActivationState::Idle,
            timer: next_ticket(self.timer),
            ..self
        }
    }
}

/// Two exact connections for one lifecycle stamp.
#[derive(Debug)]
pub struct ProductRouteSet {
    first: RouteLane,
    second: RouteLane,
    first_binding: VerifiedRouteBinding,
    second_binding: VerifiedRouteBinding,
    active: usize,
    timer: u64,
    activation: RouteActivationState,
    transition_route: Option<usize>,
}

impl View for ProductRouteSet {
    type V = RouteSetView;

    closed spec fn view(&self) -> RouteSetView {
        RouteSetView {
            first: self.first,
            second: self.second,
            first_binding: self.first_binding@,
            second_binding: self.second_binding@,
            active: self.active,
            timer: self.timer,
            activation: self.activation,
            transition_route: self.transition_route,
        }
    }
}

/// Whether two certificate chains hold the same certificates.
fn chains_equal(left: &Vec<Vec<u8>>, right: &Vec<Vec<u8>>) -> (equal: bool)
    ensures
        equal == (chain_bytes(left@) == chain_bytes(right@)),
{
    let ghost ours = chain_bytes(left@);
    let ghost theirs = chain_bytes(right@);
    if left.len() != right.len() {
        proof {
            assert(ours.len() != theirs.len());
        }
        return false;
    }
    let mut index: usize = 0;
    while index < left.len()
        invariant
            index <= left@.len(),
            left@.len() == right@.len(),
            ours == chain_bytes(left@),
            theirs == chain_bytes(right@),
            forall|i: int| 0 <= i < index ==> ours[i] == theirs[i],
        decreases left@.len() - index,
    {
        if !bytes_equal(&left[index], &right[index]) {
            proof {
                assert(ours[index as int] != theirs[index as int]);
            }
            return false;
        }
        index += 1;
    }
    proof {
        assert(ours =~= theirs);
    }
    true
}

impl ProductRouteSet {
    /// Joins an active route and a rollback candidate of the same session to
    /// the same exact peer. The candidate starts without authority.
    pub fn new(
        active: RouteLane,
        active_binding: VerifiedRouteBinding,
        active_connection: usize,
        active_chain: Result<Vec<Vec<u8>>, QuicTransportError>,
        candidate: RouteLane,
        candidate_binding: VerifiedRouteBinding,
        candidate_connection: usize,
        candidate_chain: Result<Vec<Vec<u8>>, QuicTransportError>,
    ) -> (result: Result<Self, ProductSessionError>)
        ensures
            match RouteSetView::forming_fault(
                active,
                active_binding@,
                active_connection,
                chain_view(active_chain),
                candidate,
                candidate_binding@,
                candidate_connection,
                chain_view(candidate_chain),
            ) {
                Some(error) => result is Err && result->Err_0 == error,
                None => {
                    &&& result is Ok
                    &&& result->Ok_0@ == (RouteSetView {
                        first: RouteLane { authorized: true, ..active },
                        second: RouteLane { authorized: false, ..candidate },
                        first_binding: active_binding@,
                        second_binding: candidate_binding@,
                        active: 0,
                        timer: 0,
                        activation: RouteActivationState::Idle,
                        transition_route: None,
                    })
                    &&& result->Ok_0@.is_valid()
                },
            },
    {
        if !active_binding.is_complete() || !candidate_binding.is_complete()
            || active_binding.shares_digest_with(&candidate_binding) || !active_binding.is_on(
            active_connection,
        ) || !candidate_binding.is_on(candidate_connection) {
            return Err(local(RouteTransitionViolation::InvalidBinding));
        }
        if active_connection == candidate_connection {
            return Err(local(RouteTransitionViolation::DuplicateConnection));
        }
        if active.stamp() != candidate.stamp() {
            return Err(local(RouteTransitionViolation::SessionMismatch));
        }
        let left: Vec<Vec<u8>> = match active_chain {
            Ok(chain) => chain,
            Err(error) => return Err(ProductSessionError::Quic(error)),
        };
        let right: Vec<Vec<u8>> = match candidate_chain {
            Ok(chain) => chain,
            Err(error) => return Err(ProductSessionError::Quic(error)),
        };
        if !chains_equal(&left, &right) {
            return Err(local(RouteTransitionViolation::PeerIdentityMismatch));
        }
        if !active_binding.has_same_peer(&candidate_binding) {
            return Err(local(RouteTransitionViolation::InvalidBinding));
        }
        Ok(
            ProductRouteSet {
                first: RouteLane { authorized: true, ..active },
                second: RouteLane { authorized: false, ..candidate },
                first_binding: active_binding,
                second_binding: candidate_binding,
                active: 0,
                timer: 0,
                activation: RouteActivationState::Idle,
                transition_route: None,
            },
        )
    }

    /// Index of the route that has or last had authority.
    pub fn active_index(&self) -> (index: usize)
        ensures
            index == self@.active,
    {
        self.active
    }

    /// Exact active stamp attached to every record.
    pub fn stamp(&self) -> (stamp: SessionStamp)
        ensures
            stamp == self@.lane(self@.active).current(),
    {
        self.lane(self.active).stamp()
    }

    /// One of the two routes.
    pub fn lane(&self, index: usize) -> (lane: RouteLane)
        ensures
            lane == self@.lane(index),
    {
        if index == 0 {
            self.first
        } else {
            self.second
        }
    }

    fn set_lane(&mut self, index: usize, lane: RouteLane)
        ensures
            final(self)@ == old(self)@.with_lane(index, lane),
    {
        if index == 0 {
            self.first = lane;
        } else {
            self.second = lane;
        }
    }

    /// The binding of one of the two routes.
    pub fn binding(&self, index: usize) -> (binding: VerifiedRouteBinding)
        ensures
            binding@ == self@.binding(index),
    {
        if index == 0 {
            self.first_binding
        } else {
            self.second_binding
        }
    }

    fn standby(&self) -> (index: usize)
        requires
            self@.active <= 1,
        ensures
            index == self@.standby(),
    {
        1 - self.active
    }

    /// Takes all authority after an interrupted or refused operation. Both
    /// connections are closed.
    pub fn revoke(&mut self)
        requires
            old(self)@.is_valid(),
        ensures
            final(self)@ == old(self)@.revoked(),
            final(self)@.is_valid(),
    {
        self.first.set_authorized(false);
        self.second.set_authorized(false);
    }

    fn bump_timer(&mut self)
        ensures
            final(self)@ == (RouteSetView {
                timer: next_ticket(old(self)@.timer),
                ..old(self)@
            }),
    {
        if self.timer == u64::MAX {
            self.timer = 0;
        } else {
            self.timer += 1;
        }
    }

    /// Number of the latest transition timer.
    pub fn transition_ticket(&self) -> (ticket: u64)
        ensures
            ticket == self@.timer,
    {
        self.timer
    }

    /// Takes all authority if the timer that fired is still the latest one.
    pub fn transition_expired(&mut self, ticket: u64) -> (expired: bool)
        requires
            old(self)@.is_valid(),
        ensures
            final(self)@.is_valid(),
            expired == (ticket == old(self)@.timer),
            final(self)@ == (if expired {
                old(self)@.revoked()
            } else {
                old(self)@
            }),
    {
        if self.timer == ticket {
            self.revoke();
            true
        } else {
            false
        }
    }

    fn offer(
        &mut self,
        route: usize,
        message: RouteTransitionMessage,
        valid: Result<(), ProtocolError>,
        encoded: Result<(), ProtocolError>,
    ) -> (result: Result<usize, ProductSessionError>)
        requires
            old(self)@.is_valid(),
        ensures
            (final(self)@, result) == old(self)@.offering(route, message, valid, encoded),
            final(self)@.is_valid(),
    {
        match self.lane(route).check_send(message, valid, encoded) {
            Err(error) => {
                self.revoke();
                Err(error)
            },
            Ok(()) => Ok(route),
        }
    }

    /// The route that carries a record to be sent. Nothing changes when there
    /// is none.
    pub fn expect_send(&self, message: RouteTransitionMessage) -> (result: Result<
        usize,
        ProductSessionError,
    >)
        requires
            self@.is_valid(),
        ensures
            result == (match self@.carrier(message) {
                Ok(route) => Ok::<usize, ProductSessionError>(route),
                Err(violation) => Err::<usize, ProductSessionError>(
                    ProductSessionError::RouteTransition(violation),
                ),
            }),
    {
        if !self.binding(self.standby()).covers(&message) {
            return Err(local(RouteTransitionViolation::BindingMismatch));
        }
        match (message.stage, self.transition_route) {
            (RouteTransitionStage::Prepare, None) => Ok(self.active),
            (RouteTransitionStage::Prepared, Some(route)) => Ok(route),
            (RouteTransitionStage::Commit, Some(route)) => Ok(route),
            _ => Err(local(RouteTransitionViolation::InvalidState)),
        }
    }

    /// Whether rollback may start over the retained path. Nothing changes when
    /// it may not.
    pub fn expect_rollback(&self, message: RouteTransitionMessage) -> (result: Result<
        (),
        ProductSessionError,
    >)
        requires
            self@.is_valid(),
        ensures
            result == (match self@.rollback_fault(message) {
                None => Ok::<(), ProductSessionError>(()),
                Some(violation) => Err::<(), ProductSessionError>(
                    ProductSessionError::RouteTransition(violation),
                ),
            }),
    {
        let idle: bool = matches!(self.activation, RouteActivationState::Idle);
        if message.stage != RouteTransitionStage::Prepare || self.transition_route.is_some()
            || !idle || self.lane(self.active).authorized {
            return Err(local(RouteTransitionViolation::InvalidState));
        }
        if !self.binding(self.standby()).covers(&message) {
            return Err(local(RouteTransitionViolation::BindingMismatch));
        }
        Ok(())
    }

    /// Decides whether a transition record may be sent, and on which route.
    /// Once the route is chosen, a refusal takes all authority.
    pub fn send_route_transition(
        &mut self,
        message: RouteTransitionMessage,
        valid: Result<(), ProtocolError>,
        encoded: Result<(), ProtocolError>,
    ) -> (result: Result<usize, ProductSessionError>)
        requires
            old(self)@.is_valid(),
        ensures
            final(self)@.is_valid(),
            match old(self)@.carrier(message) {
                Err(violation) => final(self)@ == old(self)@ && result == Err::<
                    usize,
                    ProductSessionError,
                >(ProductSessionError::RouteTransition(violation)),
                Ok(route) => (final(self)@, result) == old(self)@.offering(
                    route,
                    message,
                    valid,
                    encoded,
                ),
            },
    {
        match self.expect_send(message) {
            Err(error) => Err(error),
            Ok(route) => self.offer(route, message, valid, encoded),
        }
    }

    /// Decides whether rollback may start over the retained path, when the
    /// active candidate can no longer carry the prepare exchange.
    pub fn send_rollback_via_retained(
        &mut self,
        message: RouteTransitionMessage,
        valid: Result<(), ProtocolError>,
        encoded: Result<(), ProtocolError>,
    ) -> (result: Result<usize, ProductSessionError>)
        requires
            old(self)@.is_valid(),
        ensures
            final(self)@.is_valid(),
            match old(self)@.rollback_fault(message) {
                Some(violation) => final(self)@ == old(self)@ && result == Err::<
                    usize,
                    ProductSessionError,
                >(ProductSessionError::RouteTransition(violation)),
                None => (final(self)@, result) == old(self)@.offering(
                    old(self)@.standby(),
                    message,
                    valid,
                    encoded,
                ),
            },
    {
        match self.expect_rollback(message) {
            Err(error) => Err(error),
            Ok(()) => {
                let route: usize = self.standby();
                self.offer(route, message, valid, encoded)
            },
        }
    }

    fn synchronize_route_epochs(&mut self, message: &RouteTransitionMessage) -> (result: Result<
        (),
        ProductSessionError,
    >)
        ensures
            (final(self)@, result) == old(self)@.following(*message),
    {
        match self.first.follow(message) {
            Err(error) => return Err(error),
            Ok(()) => {},
        }
        self.second.follow(message)
    }

    /// Takes note that a transition record was written on `route`.
    pub fn route_transition_sent(&mut self, route: usize, message: RouteTransitionMessage) -> (
    result: Result<(), ProductSessionError>)
        requires
            old(self)@.is_valid(),
            route <= 1,
        ensures
            (final(self)@, result) == old(self)@.sending(route, message),
            final(self)@.is_valid(),
    {
        let mut lane: RouteLane = self.lane(route);
        let outcome: Result<(), ProductSessionError> = lane.record_sent(message);
        self.set_lane(route, lane);
        match outcome {
            Err(error) => {
                self.first.set_authorized(false);
                self.second.set_authorized(false);
                return Err(error);
            },
            Ok(()) => {},
        }
        if message.stage == RouteTransitionStage::Commit {
            match self.synchronize_route_epochs(&message) {
                Err(error) => {
                    self.first.set_authorized(false);
                    self.second.set_authorized(false);
                    return Err(error);
                },
                Ok(()) => {},
            }
            self.activation = RouteActivationState::AwaitingActivated {
                previous: self.active,
                commit: message,
            };
            self.transition_route = None;
        } else if message.stage == RouteTransitionStage::Prepare {
            self.transition_route = Some(route);
            self.bump_timer();
        }
        Ok(())
    }

    /// Whether a receiver on `route` may wait for a transition record.
    pub fn expect_route_transition(&self, route: usize) -> (result: Result<
        (),
        ProductSessionError,
    >)
        ensures
            result == (if self@.transition_route is Some && self@.transition_route != Some(route) {
                Err::<(), ProductSessionError>(
                    ProductSessionError::RouteTransition(
                        RouteTransitionViolation::WrongActiveRoute,
                    ),
                )
            } else {
                Ok::<(), ProductSessionError>(())
            }),
    {
        match self.transition_route {
            Some(carrier) => {
                if carrier != route {
                    return Err(local(RouteTransitionViolation::WrongActiveRoute));
                }
            },
            None => {},
        }
        Ok(())
    }

    /// Takes a transition record that was read on `route`. A refusal takes all
    /// authority. After a commit the reply must be written and reported with
    /// [`ProductRouteSet::route_activation_sent`].
    pub fn next_route_transition(
        &mut self,
        route: usize,
        private: PrivateControl<RouteTransitionMessage>,
    ) -> (result: Result<RouteStep, ProductSessionError>)
        requires
            old(self)@.is_valid(),
            route <= 1,
        ensures
            (final(self)@, result) == old(self)@.receiving(route, private),
            final(self)@.is_valid(),
    {
        let standby: usize = self.standby();
        let target: VerifiedRouteBinding = self.binding(standby);
        let mut lane: RouteLane = self.lane(route);
        let message: RouteTransitionMessage = match lane.receive_route_transition(
            Some(target),
            private,
        ) {
            Ok(message) => message,
            Err(error) => {
                self.revoke();
                return Err(error);
            },
        };
        self.set_lane(route, lane);
        if message.stage == RouteTransitionStage::Prepare {
            if self.transition_route.is_some() {
                self.first.set_authorized(false);
                self.second.set_authorized(false);
                return Err(local(RouteTransitionViolation::InvalidState));
            }
            self.transition_route = Some(route);
            if route != self.active {
                let active: usize = self.active;
                let mut failed: RouteLane = self.lane(active);
                failed.set_authorized(false);
                self.set_lane(active, failed);
            }
            self.bump_timer();
            return Ok(RouteStep { message, reply: None });
        }
        let carried: bool = match self.transition_route {
            Some(carrier) => carrier == route,
            None => false,
        };
        if !carried {
            self.first.set_authorized(false);
            self.second.set_authorized(false);
            return Err(local(RouteTransitionViolation::WrongActiveRoute));
        }
        if message.stage == RouteTransitionStage::Commit {
            match self.synchronize_route_epochs(&message) {
                Err(error) => {
                    self.first.set_authorized(false);
                    self.second.set_authorized(false);
                    return Err(error);
                },
                Ok(()) => {},
            }
            return Ok(
                RouteStep {
                    message,
                    reply: Some((standby, message.at_stage(RouteTransitionStage::Activated))),
                },
            );
        }
        Ok(RouteStep { message, reply: None })
    }

    fn activate_prepared_route(&mut self, previous: usize)
        requires
            previous <= 1,
        ensures
            final(self)@ == old(self)@.switched(previous),
    {
        let next: usize = 1 - previous;
        let mut retired: RouteLane = self.lane(previous);
        retired.set_authorized(false);
        self.set_lane(previous, retired);
        let mut promoted: RouteLane = self.lane(next);
        promoted.set_authorized(true);
        self.set_lane(next, promoted);
        self.active = next;
    }

    /// Takes note that the activation of a received commit was written: the
    /// prepared route gets the authority.
    pub fn route_activation_sent(&mut self, commit: RouteTransitionMessage)
        requires
            old(self)@.is_valid(),
            old(self)@.first.current() == old(self)@.second.current(),
        ensures
            final(self)@ == old(self)@.activating(commit),
            final(self)@.is_valid(),
    {
        let current: usize = self.active;
        self.activate_prepared_route(current);
        self.activation = RouteActivationState::AwaitingConfirmed { commit };
        self.transition_route = None;
    }

    /// The commit whose activation a receiver on `route` may wait for.
    pub fn expect_route_activation(&self, route: usize) -> (result: Result<
        RouteTransitionMessage,
        ProductSessionError,
    >)
        requires
            self@.is_valid(),
        ensures
            result == (match self@.activation_fault(route) {
                None => Ok::<RouteTransitionMessage, ProductSessionError>(
                    self@.activation->AwaitingActivated_commit,
                ),
                Some(violation) => Err::<RouteTransitionMessage, ProductSessionError>(
                    ProductSessionError::RouteTransition(violation),
                ),
            }),
    {
        match self.activation {
            RouteActivationState::AwaitingActivated { previous, commit } => {
                if self.active != previous || route != 1 - previous {
                    return Err(local(RouteTransitionViolation::WrongActiveRoute));
                }
                Ok(commit)
            },
            _ => Err(local(RouteTransitionViolation::InvalidState)),
        }
    }

    /// The commit whose confirmation a receiver on `route` may wait for.
    pub fn expect_route_confirmation(&self, route: usize) -> (result: Result<
        RouteTransitionMessage,
        ProductSessionError,
    >)
        ensures
            result == (match self@.confirmation_fault(route) {
                None => Ok::<RouteTransitionMessage, ProductSessionError>(
                    self@.activation->AwaitingConfirmed_commit,
                ),
                Some(violation) => Err::<RouteTransitionMessage, ProductSessionError>(
                    ProductSessionError::RouteTransition(violation),
                ),
            }),
    {
        match self.activation {
            RouteActivationState::AwaitingConfirmed { commit } => {
                if route != self.active {
                    return Err(local(RouteTransitionViolation::WrongActiveRoute));
                }
                Ok(commit)
            },
            _ => Err(local(RouteTransitionViolation::InvalidState)),
        }
    }

    /// Takes the activation that answers a sent commit. Before anything is
    /// read, a wrong state or route is refused; after that a refusal takes all
    /// authority.
    pub fn next_route_activation(
        &mut self,
        route: usize,
        carried: SessionStamp,
        packet: Result<ReceivedControl<RouteTransitionMessage>, ProtocolError>,
    ) -> (result: Result<RouteStep, ProductSessionError>)
        requires
            old(self)@.is_valid(),
        ensures
            final(self)@.is_valid(),
            match old(self)@.activation_fault(route) {
                Some(violation) => final(self)@ == old(self)@ && result == Err::<
                    RouteStep,
                    ProductSessionError,
                >(ProductSessionError::RouteTransition(violation)),
                None => {
                    let commit = old(self)@.activation->AwaitingActivated_commit;
                    match old(self)@.lane(route).activation_fault(
                        old(self)@.binding(route),
                        commit,
                        RouteTransitionStage::Activated,
                        carried,
                        packet,
                    ) {
                        Some(error) => final(self)@ == old(self)@.revoked() && result == Err::<
                            RouteStep,
                            ProductSessionError,
                        >(error),
                        None => final(self)@ == old(self)@ && packet is Ok && packet->Ok_0.body
                            is Ok && result == Ok::<RouteStep, ProductSessionError>(
                            RouteStep {
                                message: packet->Ok_0.body->Ok_0,
                                reply: Some((route, commit.at(RouteTransitionStage::Confirmed))),
                            },
                        ),
                    }
                },
            },
    {
        let commit: RouteTransitionMessage = match self.expect_route_activation(route) {
            Ok(commit) => commit,
            Err(error) => return Err(error),
        };
        match self.lane(route).receive_route_activation(
            self.binding(route),
            commit,
            RouteTransitionStage::Activated,
            carried,
            packet,
        ) {
            Err(error) => {
                self.revoke();
                Err(error)
            },
            Ok(message) => Ok(
                RouteStep {
                    message,
                    reply: Some((route, commit.at_stage(RouteTransitionStage::Confirmed))),
                },
            ),
        }
    }

    /// Takes note that the confirmation was written: the prepared route gets
    /// the authority and the transition is over.
    pub fn route_confirmation_sent(&mut self)
        requires
            old(self)@.is_valid(),
            old(self)@.first.current() == old(self)@.second.current(),
        ensures
            final(self)@ == old(self)@.switched(old(self)@.active).settled(),
            final(self)@.is_valid(),
    {
        let current: usize = self.active;
        self.activate_prepared_route(current);
        self.activation = RouteActivationState::Idle;
        self.bump_timer();
    }

    /// Takes the confirmation that answers a sent activation; the transition
    /// is over. Before anything is read, a wrong state or route is refused;
    /// after that a refusal takes all authority.
    pub fn next_route_confirmation(
        &mut self,
        route: usize,
        carried: SessionStamp,
        packet: Result<ReceivedControl<RouteTransitionMessage>, ProtocolError>,
    ) -> (result: Result<RouteTransitionMessage, ProductSessionError>)
        requires
            old(self)@.is_valid(),
        ensures
            final(self)@.is_valid(),
            match old(self)@.confirmation_fault(route) {
                Some(violation) => final(self)@ == old(self)@ && result == Err::<
                    RouteTransitionMessage,
                    ProductSessionError,
                >(ProductSessionError::RouteTransition(violation)),
                None => match old(self)@.lane(route).activation_fault(
                    old(self)@.binding(route),
                    old(self)@.activation->AwaitingConfirmed_commit,
                    RouteTransitionStage::Confirmed,
                    carried,
                    packet,
                ) {
                    Some(error) => final(self)@ == old(self)@.revoked() && result == Err::<
                        RouteTransitionMessage,
                        ProductSessionError,
                    >(error),
                    None => final(self)@ == old(self)@.settled() && packet is Ok
                        && packet->Ok_0.body is Ok && result == Ok::<
                        RouteTransitionMessage,
                        ProductSessionError,
                    >(packet->Ok_0.body->Ok_0),
                },
            },
    {
        let commit: RouteTransitionMessage = match self.expect_route_confirmation(route) {
            Ok(commit) => commit,
            Err(error) => return Err(error),
        };
        match self.lane(route).receive_route_activation(
            self.binding(route),
            commit,
            RouteTransitionStage::Confirmed,
            carried,
            packet,
        ) {
            Err(error) => {
                self.revoke();
                Err(error)
            },
            Ok(message) => {
                self.activation = RouteActivationState::Idle;
                self.bump_timer();
                Ok(message)
            },
        }
    }

    /// Whether a receiver on `route` may read application control.
    pub fn next_control(&self, route: usize) -> (result: Result<(), ProductSessionError>)
        ensures
            result == (if route == self@.active {
                Ok::<(), ProductSessionError>(())
            } else {
                Err::<(), ProductSessionError>(
                    ProductSessionError::RouteTransition(
                        RouteTransitionViolation::WrongActiveRoute,
                    ),
                )
            }),
    {
        if route != self.active {
            return Err(local(RouteTransitionViolation::WrongActiveRoute));
        }
        Ok(())
    }

    /// Takes all authority and outdates the timer. Both connections are closed.
    pub fn close(&mut self)
        requires
            old(self)@.is_valid(),
        ensures
            final(self)@ == (RouteSetView {
                timer: next_ticket(old(self)@.timer),
                ..old(self)@.revoked()
            }),
            final(self)@.is_valid(),
    {
        self.bump_timer();
        self.revoke();
    }

    /// Takes the authority of the active route only, so that rollback control
    /// can proceed over the retained connection. The active connection is
    /// closed.
    pub fn fail_active_route(&mut self)
        requires
            old(self)@.is_valid(),
        ensures
            final(self)@ == old(self)@.with_lane(
                old(self)@.active,
                RouteLane { authorized: false, ..old(self)@.lane(old(self)@.active) },
            ),
            final(self)@.is_valid(),
    {
        let active: usize = self.active;
        let mut lane: RouteLane = self.lane(active);
        lane.set_authorized(false);
        self.set_lane(active, lane);
    }
}

// ---------------------------------------------------------------------------
// Laws
// ---------------------------------------------------------------------------
/// Every step of a transition keeps at most one route authorized, and that one
/// is the active route.
pub proof fn law_one_route_has_authority(
    set: RouteSetView,
    route: usize,
    message: RouteTransitionMessage,
    private: PrivateControl<RouteTransitionMessage>,
    valid: Result<(), ProtocolError>,
    encoded: Result<(), ProtocolError>,
)
    requires
        set.is_valid(),
        route <= 1,
    ensures
        !(set.first.authorized && set.second.authorized),
        set.offering(route, message, valid, encoded).0.is_valid(),
        set.sending(route, message).0.is_valid(),
        set.receiving(route, private).0.is_valid(),
        set.revoked().is_valid(),
        set.settled().is_valid(),
        set.first.current() == set.second.current() ==> set.switched(set.active).is_valid()
            && set.activating(message).is_valid(),
{
}

/// A step that fails after it began leaves no authority anywhere.
pub proof fn law_failed_step_revokes_both_routes(
    set: RouteSetView,
    route: usize,
    message: RouteTransitionMessage,
    private: PrivateControl<RouteTransitionMessage>,
    valid: Result<(), ProtocolError>,
    encoded: Result<(), ProtocolError>,
)
    requires
        set.is_valid(),
        route <= 1,
    ensures
        ({
            let offered = set.offering(route, message, valid, encoded);
            offered.1 is Err ==> !offered.0.first.authorized && !offered.0.second.authorized
        }),
        ({
            let sent = set.sending(route, message);
            sent.1 is Err ==> !sent.0.first.authorized && !sent.0.second.authorized
        }),
        ({
            let received = set.receiving(route, private);
            received.1 is Err ==> !received.0.first.authorized && !received.0.second.authorized
        }),
{
}

/// A route at rest between two transitions.
pub open spec fn at_rest(set: RouteSetView) -> bool {
    &&& set.is_valid()
    &&& set.first.wire == RouteWireState::Idle
    &&& set.second.wire == RouteWireState::Idle
    &&& set.activation == RouteActivationState::Idle
    &&& set.transition_route is None
    &&& set.first.current() == set.second.current()
    &&& set.first.route_sequence == set.second.route_sequence
}

/// Two peers hold the two ends of the same routes.
pub open spec fn are_peers(near: RouteSetView, far: RouteSetView) -> bool {
    &&& near.active == far.active
    &&& near.first.current() == far.first.current()
    &&& near.first.route_sequence == far.first.route_sequence
    &&& near.first_binding.route_digest == far.first_binding.route_digest
    &&& near.first_binding.transcript_digest == far.first_binding.transcript_digest
    &&& near.second_binding.route_digest == far.second_binding.route_digest
    &&& near.second_binding.transcript_digest == far.second_binding.transcript_digest
}

/// The set that a whole transition leads to: authority on the other route, one
/// epoch later, at rest.
pub open spec fn handed_over(set: RouteSetView, prepare: RouteTransitionMessage) -> RouteSetView {
    let first = RouteLane {
        route_epoch: prepare.next_route_epoch,
        route_sequence: prepare.sequence,
        ..set.first
    };
    let second = RouteLane {
        route_epoch: prepare.next_route_epoch,
        route_sequence: prepare.sequence,
        ..set.second
    };
    RouteSetView {
        timer: next_ticket(next_ticket(set.timer)),
        ..(RouteSetView { first, second, ..set }).switched(set.active)
    }
}

/// The control record that carries a message of a session.
pub open spec fn packet_of(session_id: u64, message: RouteTransitionMessage) -> Result<
    ReceivedControl<RouteTransitionMessage>,
    ProtocolError,
> {
    Ok(ReceivedControl { kind: message.stage.kind(), session_id, body: Ok(message) })
}

/// The records of a transition over `route`, from the prepared record to the
/// confirmation, are all accepted, and both sets end at rest on the other
/// route, one epoch later.
pub open spec fn completes(
    near: RouteSetView,
    far: RouteSetView,
    route: usize,
    prepare: RouteTransitionMessage,
) -> bool {
    let other = near.standby();
    let prepared = prepare.at(RouteTransitionStage::Prepared);
    let commit = prepare.at(RouteTransitionStage::Commit);
    let activated = prepare.at(RouteTransitionStage::Activated);
    let confirmed = prepare.at(RouteTransitionStage::Confirmed);
    let id = near.first.stamp.session_id;
    let near1 = near.sending(route, prepare).0;
    let far1 = far.receiving(route, carrying(prepare)).0;
    let far2 = far1.sending(route, prepared).0;
    let near2 = near1.receiving(route, carrying(prepared)).0;
    let near3 = near2.sending(route, commit).0;
    let far3 = far2.receiving(route, carrying(commit)).0;
    let far4 = far3.activating(commit);
    let near4 = near3.switched(near3.active).settled();
    let far5 = far4.settled();
    &&& near.offering(route, prepare, Ok(()), Ok(())).1 is Ok
    &&& near.sending(route, prepare).1 is Ok
    &&& far.receiving(route, carrying(prepare)).1 is Ok
    &&& far1.carrier(prepared) == Ok::<usize, RouteTransitionViolation>(route)
    &&& far1.offering(route, prepared, Ok(()), Ok(())).1 is Ok
    &&& far1.sending(route, prepared).1 is Ok
    &&& near1.receiving(route, carrying(prepared)).1 is Ok
    &&& near2.carrier(commit) == Ok::<usize, RouteTransitionViolation>(route)
    &&& near2.offering(route, commit, Ok(()), Ok(())).1 is Ok
    &&& near2.sending(route, commit).1 is Ok
    &&& far2.receiving(route, carrying(commit)).1 == Ok::<RouteStep, ProductSessionError>(
        RouteStep { message: commit, reply: Some((other, activated)) },
    )
    &&& near3.activation_fault(other) is None
    &&& near3.lane(other).activation_fault(
        near3.binding(other),
        commit,
        RouteTransitionStage::Activated,
        far3.lane(other).current(),
        packet_of(id, activated),
    ) is None
    &&& far4.confirmation_fault(other) is None
    &&& far4.lane(other).activation_fault(
        far4.binding(other),
        commit,
        RouteTransitionStage::Confirmed,
        near3.lane(other).current(),
        packet_of(id, confirmed),
    ) is None
    &&& near4 == handed_over(near, prepare)
    &&& far5 == handed_over(far, prepare)
    &&& at_rest(near4)
    &&& at_rest(far5)
    &&& are_peers(near4, far5)
}

/// A prepare record that is due between two peers at rest.
pub open spec fn is_due(near: RouteSetView, prepare: RouteTransitionMessage) -> bool {
    &&& prepare.stage == RouteTransitionStage::Prepare
    &&& prepare.sequence == near.first.due_sequence()
    &&& prepare.base_route_epoch == near.first.route_epoch
    &&& prepare.next_route_epoch == near.first.route_epoch + 1
    &&& near.binding(near.standby()).covers(prepare)
}

/// A transition over the active route hands the authority over on both peers:
/// every record is accepted, and both sets end at rest on the other route, one
/// epoch later, with the old route retained for rollback.
pub proof fn law_transition_hands_over(
    near: RouteSetView,
    far: RouteSetView,
    prepare: RouteTransitionMessage,
)
    requires
        at_rest(near),
        at_rest(far),
        are_peers(near, far),
        near.lane(near.active).authorized,
        far.lane(far.active).authorized,
        is_due(near, prepare),
    ensures
        near.carrier(prepare) == Ok::<usize, RouteTransitionViolation>(near.active),
        completes(near, far, near.active, prepare),
{
}

/// When the active route has failed, the same exchange over the retained route
/// hands the authority back to it on both peers.
pub proof fn law_rollback_uses_the_retained_route(
    near: RouteSetView,
    far: RouteSetView,
    prepare: RouteTransitionMessage,
)
    requires
        at_rest(near),
        at_rest(far),
        are_peers(near, far),
        !near.lane(near.active).authorized,
        is_due(near, prepare),
    ensures
        near.rollback_fault(prepare) is None,
        completes(near, far, near.standby(), prepare),
{
}

} // verus!
