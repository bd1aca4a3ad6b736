//! Decisions of the loop that runs connectivity checks on one exclusively
//! owned UDP socket. The loop hands the socket on only after nomination; every
//! other exit drops it.

use crate::address::SocketAddress;
use crate::ice::{
    Ice, IceError, IceEvent, IceRole, IceState, IceView, MAX_ICE_IGNORED_DATAGRAMS,
};
use vstd::prelude::*;

verus! {

/// Datagrams that one run may send.
pub const MAX_ICE_OUTBOUND_DATAGRAMS: usize = 512;

/// Datagrams that one run may receive.
pub const MAX_ICE_INBOUND_DATAGRAMS: usize = 1_024;

/// Bytes that one run may receive.
pub const MAX_ICE_INBOUND_BYTES: usize = 2_097_152;

/// Queued datagrams that are read away before the socket is handed on.
pub const MAX_ICE_DRAIN_DATAGRAMS: usize = 128;

/// Attempts to send one datagram.
pub const MAX_ICE_SEND_ATTEMPTS: usize = 4;

/// Longest pause between two rounds, in nanoseconds.
pub const MAX_ICE_PAUSE_NS: u64 = 5_000_000;

/// Requests to a run, and what it has reported. There is one of them for a run:
/// whoever is to share it shares a reference to it, so it cannot be copied.
#[derive(Debug, PartialEq, Eq, Structural)]
pub struct IceRunControl {
    cancelled: bool,
    nominated: bool,
    handoff: bool,
}

/// A run control as mathematics sees it.
pub struct IceRunControlView {
    pub cancelled: bool,
    pub nominated: bool,
    pub handoff: bool,
}

/// What a run control can be told.
#[derive(Debug, Clone, Copy, PartialEq, Eq, Structural)]
pub enum ControlCall {
    Cancel,
    RequestHandoff,
    ReportNominated,
}

impl IceRunControlView {
    /// The control after it was told something.
    pub open spec fn told(self, call: ControlCall) -> IceRunControlView {
        match call {
            ControlCall::Cancel => IceRunControlView { cancelled: true, ..self },
            ControlCall::RequestHandoff => IceRunControlView { handoff: true, ..self },
            ControlCall::ReportNominated => IceRunControlView { nominated: true, ..self },
        }
    }

    /// The control after it was told several things in order.
    pub open spec fn told_all(self, calls: Seq<ControlCall>) -> IceRunControlView
        decreases calls.len(),
    {
        if calls.len() == 0 {
            self
        } else {
            self.told_all(calls.drop_last()).told(calls.last())
        }
    }
}

/// Nothing that a control was told is ever taken back, and being told one
/// thing says nothing of the others: whatever the order of the calls, a control
/// is cancelled, handed on or nominated exactly if it was before or if one of
/// the calls said so.
pub proof fn law_requests_stay(view: IceRunControlView, calls: Seq<ControlCall>)
    ensures
        view.told_all(calls) == (IceRunControlView {
            cancelled: view.cancelled || calls.contains(ControlCall::Cancel),
            nominated: view.nominated || calls.contains(ControlCall::ReportNominated),
            handoff: view.handoff || calls.contains(ControlCall::RequestHandoff),
        }),
    decreases calls.len(),
{
    if calls.len() > 0 {
        let front = calls.drop_last();
        law_requests_stay(view, front);
        assert forall|call: ControlCall| calls.contains(call) <==> front.contains(call) || call
            == calls.last() by {
            if front.contains(call) {
                assert(calls[front.index_of(call)] == call);
            }
            if calls.contains(call) {
                let at = calls.index_of(call);
                if at < front.len() {
                    assert(front[at] == call);
                }
            }
            assert(calls[calls.len() - 1] == calls.last());
        }
    }
}

impl View for IceRunControl {
    type V = IceRunControlView;

    closed spec fn view(&self) -> IceRunControlView {
        IceRunControlView {
            cancelled: self.cancelled,
            nominated: self.nominated,
            handoff: self.handoff,
        }
    }
}

impl Default for IceRunControl {
    fn default() -> (control: Self)
        ensures
            control@ == (IceRunControlView { cancelled: false, nominated: false, handoff: false }),
    {
        IceRunControl { cancelled: false, nominated: false, handoff: false }
    }
}

impl IceRunControl {
    /// A control without any request.
    pub fn new() -> (control: Self)
        ensures
            control@ == (IceRunControlView { cancelled: false, nominated: false, handoff: false }),
    {
        IceRunControl { cancelled: false, nominated: false, handoff: false }
    }

    /// Asks the run to stop.
    pub fn cancel(&mut self)
        ensures
            final(self)@ == old(self)@.told(ControlCall::Cancel),
    {
        self.cancelled = true;
    }

    /// Whether the run was asked to stop.
    pub fn is_cancelled(&self) -> (result: bool)
        ensures
            result == self@.cancelled,
    {
        self.cancelled
    }

    /// Asks the run to hand its socket on.
    pub fn request_handoff(&mut self)
        ensures
            final(self)@ == old(self)@.told(ControlCall::RequestHandoff),
    {
        self.handoff = true;
    }

    /// Whether the run was asked to hand its socket on.
    pub fn handoff_requested(&self) -> (result: bool)
        ensures
            result == self@.handoff,
    {
        self.handoff
    }

    /// Whether a path was nominated.
    pub fn is_nominated(&self) -> (result: bool)
        ensures
            result == self@.nominated,
    {
        self.nominated
    }

    fn report_nominated(&mut self)
        ensures
            final(self)@ == old(self)@.told(ControlCall::ReportNominated),
    {
        self.nominated = true;
    }
}

/// The path that both ends agreed on.
#[derive(Debug, Clone, Copy, PartialEq, Eq, Structural)]
pub struct NominatedPath {
    pub source: SocketAddress,
    pub destination: SocketAddress,
}

/// What one attempt to send gave.
#[derive(Debug, Clone, Copy, PartialEq, Eq, Structural)]
pub enum SendOutcome {
    Sent(usize),
    WouldBlock,
    Failed,
}

/// What one attempt to read away a queued datagram gave.
#[derive(Debug, Clone, Copy, PartialEq, Eq, Structural)]
pub enum DrainOutcome {
    Datagram,
    WouldBlock,
    Failed,
}

/// The loop's counters.
#[derive(Debug, PartialEq, Eq, Structural)]
pub struct IceRun {
    /// The socket's own address.
    pub local: SocketAddress,
    pub nominated: Option<NominatedPath>,
    pub ignored: usize,
    pub outbound: usize,
    pub inbound: usize,
    pub inbound_bytes: usize,
    pub received_this_round: usize,
}

/// Why a run cannot start: its socket must be the base of every candidate.
pub open spec fn start_fault(ice: IceView, local: SocketAddress) -> Option<IceError> {
    if ice.local.len() == 0 || exists|i: int|
        0 <= i < ice.local.len() && (#[trigger] ice.local[i]).base != local {
        Some(IceError::AgentInvariant)
    } else {
        None
    }
}

/// An answer to a datagram that only counts as ignored.
pub open spec fn is_ignorable(result: Result<bool, IceError>) -> bool {
    ||| result == Ok::<bool, IceError>(false)
    ||| result == Err::<bool, IceError>(IceError::InvalidDatagram)
    ||| result == Err::<bool, IceError>(IceError::UnexpectedDatagramDestination)
}

/// Decides what follows an attempt to send a datagram of `len` bytes: `true`
/// means done, `false` means another attempt. `attempt` counts from zero.
pub fn judge_send(attempt: usize, outcome: SendOutcome, len: usize) -> (result: Result<
    bool,
    IceError,
>)
    requires
        attempt < MAX_ICE_SEND_ATTEMPTS,
    ensures
        result == (match outcome {
            SendOutcome::Sent(count) => if count == len {
                Ok::<bool, IceError>(true)
            } else {
                Err::<bool, IceError>(IceError::AgentInvariant)
            },
            SendOutcome::WouldBlock => if attempt + 1 < MAX_ICE_SEND_ATTEMPTS {
                Ok::<bool, IceError>(false)
            } else {
                Err::<bool, IceError>(IceError::Io)
            },
            SendOutcome::Failed => Err::<bool, IceError>(IceError::Io),
        }),
{
    match outcome {
        SendOutcome::Sent(count) => {
            if count == len {
                Ok(true)
            } else {
                Err(IceError::AgentInvariant)
            }
        },
        SendOutcome::WouldBlock => {
            if attempt + 1 < MAX_ICE_SEND_ATTEMPTS {
                Ok(false)
            } else {
                Err(IceError::Io)
            }
        },
        SendOutcome::Failed => Err(IceError::Io),
    }
}

/// Decides what follows an attempt to read away a queued datagram when `read`
/// of them were read before: `true` means that none is left.
pub fn judge_drain(read: usize, outcome: DrainOutcome) -> (result: Result<bool, IceError>)
    requires
        read < MAX_ICE_DRAIN_DATAGRAMS,
    ensures
        result == (match outcome {
            DrainOutcome::Datagram => if read + 1 < MAX_ICE_DRAIN_DATAGRAMS {
                Ok::<bool, IceError>(false)
            } else {
                Err::<bool, IceError>(IceError::TrafficLimit)
            },
            DrainOutcome::WouldBlock => Ok::<bool, IceError>(true),
            DrainOutcome::Failed => Err::<bool, IceError>(IceError::Io),
        }),
{
    match outcome {
        DrainOutcome::Datagram => {
            if read + 1 < MAX_ICE_DRAIN_DATAGRAMS {
                Ok(false)
            } else {
                Err(IceError::TrafficLimit)
            }
        },
        DrainOutcome::WouldBlock => Ok(true),
        DrainOutcome::Failed => Err(IceError::Io),
    }
}

/// How long to pause before the next round, given the time until the agent
/// wants to run.
pub fn pause_before_next_round(until_timeout_ns: Option<u64>) -> (pause_ns: u64)
    ensures
        pause_ns == (match until_timeout_ns {
            Some(until) => if until < MAX_ICE_PAUSE_NS {
                until
            } else {
                MAX_ICE_PAUSE_NS
            },
            None => MAX_ICE_PAUSE_NS,
        }),
{
    match until_timeout_ns {
        Some(until) => {
            if until < MAX_ICE_PAUSE_NS {
                until
            } else {
                MAX_ICE_PAUSE_NS
            }
        },
        None => MAX_ICE_PAUSE_NS,
    }
}

impl IceRun {
    /// No limit is exceeded, and a nominated path starts at the socket and
    /// leads to a usable address.
    pub open spec fn is_valid(self) -> bool {
        &&& self.ignored <= MAX_ICE_IGNORED_DATAGRAMS
        &&& self.outbound <= MAX_ICE_OUTBOUND_DATAGRAMS
        &&& self.inbound <= MAX_ICE_INBOUND_DATAGRAMS
        &&& self.inbound_bytes <= MAX_ICE_INBOUND_BYTES
        &&& self.received_this_round <= self.inbound
        &&& match self.nominated {
            Some(path) => path.source == self.local && path.destination.usable(),
            None => true,
        }
    }

    /// The counters after a datagram was received, unless a limit is exceeded.
    pub open spec fn counting(self, len: usize) -> Option<IceRun> {
        if self.inbound + 1 > MAX_ICE_INBOUND_DATAGRAMS || self.inbound_bytes + len
            > MAX_ICE_INBOUND_BYTES {
            None
        } else {
            Some(
                IceRun {
                    inbound: (self.inbound + 1) as usize,
                    inbound_bytes: (self.inbound_bytes + len) as usize,
                    received_this_round: (self.received_this_round + 1) as usize,
                    ..self
                },
            )
        }
    }

    /// Starts a run on the socket with this address.
    pub fn start(ice: &Ice, local: SocketAddress) -> (result: Result<IceRun, IceError>)
        ensures
            match start_fault(ice@, local) {
                Some(error) => result == Err::<IceRun, IceError>(error),
                None => result is Ok && result->Ok_0.is_valid() && result->Ok_0 == (IceRun {
                    local,
                    nominated: None,
                    ignored: 0,
                    outbound: 0,
                    inbound: 0,
                    inbound_bytes: 0,
                    received_this_round: 0,
                }),
            },
    {
        let candidates = ice.local_candidates();
        if candidates.len() == 0 {
            return Err(IceError::AgentInvariant);
        }
        let mut index: usize = 0;
        while index < candidates.len()
            invariant
                index <= candidates@.len(),
                candidates@ == ice@.local,
                forall|i: int| 0 <= i < index ==> (#[trigger] candidates@[i]).base == local,
            decreases candidates@.len() - index,
        {
            if candidates[index].base != local {
                proof {
                    assert(ice@.local[index as int].base != local);
                }
                return Err(IceError::AgentInvariant);
            }
            index += 1;
        }
        Ok(
            IceRun {
                local,
                nominated: None,
                ignored: 0,
                outbound: 0,
                inbound: 0,
                inbound_bytes: 0,
                received_this_round: 0,
            },
        )
    }

    /// Starts a round, unless the run was cancelled or took too long.
    pub fn begin_round(&mut self, control: &IceRunControl, ice: &Ice, now_ns: u64) -> (result:
        Result<(), IceError>)
        requires
            old(self).is_valid(),
        ensures
            final(self).is_valid(),
            *final(self) == (IceRun { received_this_round: 0, ..*old(self) }),
            result == (if control@.cancelled {
                Err::<(), IceError>(IceError::Cancelled)
            } else if ice@.expired_at(now_ns) {
                Err::<(), IceError>(IceError::EstablishmentDeadlineExceeded)
            } else {
                Ok::<(), IceError>(())
            }),
    {
        self.received_this_round = 0;
        if control.is_cancelled() {
            return Err(IceError::Cancelled);
        }
        ice.advance(now_ns)
    }

    /// Accepts a datagram of the agent that starts at the socket.
    pub fn check_source(&self, source: SocketAddress) -> (result: Result<(), IceError>)
        ensures
            result == (if source == self.local {
                Ok::<(), IceError>(())
            } else {
                Err::<(), IceError>(IceError::AgentInvariant)
            }),
    {
        if source != self.local {
            return Err(IceError::AgentInvariant);
        }
        Ok(())
    }

    /// Counts a sent datagram.
    pub fn count_sent(&mut self) -> (result: Result<(), IceError>)
        requires
            old(self).is_valid(),
        ensures
            final(self).is_valid(),
            if old(self).outbound + 1 > MAX_ICE_OUTBOUND_DATAGRAMS {
                *final(self) == *old(self) && result == Err::<(), IceError>(IceError::TrafficLimit)
            } else {
                *final(self) == (IceRun {
                    outbound: (old(self).outbound + 1) as usize,
                    ..*old(self)
                }) && result == Ok::<(), IceError>(())
            },
    {
        if self.outbound >= MAX_ICE_OUTBOUND_DATAGRAMS {
            return Err(IceError::TrafficLimit);
        }
        self.outbound += 1;
        Ok(())
    }

    /// Whether this round may receive another datagram.
    pub fn may_receive(&self) -> (result: Result<(), IceError>)
        ensures
            result == (if self.received_this_round >= MAX_ICE_INBOUND_DATAGRAMS {
                Err::<(), IceError>(IceError::TrafficLimit)
            } else {
                Ok::<(), IceError>(())
            }),
    {
        if self.received_this_round >= MAX_ICE_INBOUND_DATAGRAMS {
            return Err(IceError::TrafficLimit);
        }
        Ok(())
    }

    /// Counts a received datagram.
    pub fn count_received(&mut self, len: usize) -> (result: Result<(), IceError>)
        requires
            old(self).is_valid(),
        ensures
            final(self).is_valid(),
            match old(self).counting(len) {
                None => *final(self) == *old(self) && result == Err::<(), IceError>(
                    IceError::TrafficLimit,
                ),
                Some(next) => *final(self) == next && result == Ok::<(), IceError>(()),
            },
    {
        if self.inbound >= MAX_ICE_INBOUND_DATAGRAMS || len > MAX_ICE_INBOUND_BYTES
            - self.inbound_bytes {
            return Err(IceError::TrafficLimit);
        }
        self.received_this_round += 1;
        self.inbound += 1;
        self.inbound_bytes += len;
        Ok(())
    }

    /// Judges what the adapter made of a received datagram: a stray one is
    /// counted, and any other failure ends the run.
    pub fn judge_handled(&mut self, handled: Result<bool, IceError>) -> (result: Result<
        (),
        IceError,
    >)
        requires
            old(self).is_valid(),
        ensures
            final(self).is_valid(),
            if is_ignorable(handled) {
                if old(self).ignored + 1 > MAX_ICE_IGNORED_DATAGRAMS {
                    *final(self) == *old(self) && result == Err::<(), IceError>(
                        IceError::IgnoredDatagramLimit,
                    )
                } else {
                    *final(self) == (IceRun {
                        ignored: (old(self).ignored + 1) as usize,
                        ..*old(self)
                    }) && result == Ok::<(), IceError>(())
                }
            } else {
                *final(self) == *old(self) && result == (match handled {
                    Ok(_) => Ok::<(), IceError>(()),
                    Err(error) => Err::<(), IceError>(error),
                })
            },
    {
        match handled {
            Ok(true) => return Ok(()),
            Ok(false) => {},
            Err(IceError::InvalidDatagram) => {},
            Err(IceError::UnexpectedDatagramDestination) => {},
            Err(error) => return Err(error),
        }
        if self.ignored >= MAX_ICE_IGNORED_DATAGRAMS {
            return Err(IceError::IgnoredDatagramLimit);
        }
        self.ignored += 1;
        Ok(())
    }

    /// Takes an event of the agent. A nomination must start at the socket and
    /// lead to a usable address.
    pub fn take_event(&mut self, control: &mut IceRunControl, event: IceEvent) -> (result: Result<
        (),
        IceError,
    >)
        requires
            old(self).is_valid(),
        ensures
            final(self).is_valid(),
            match event {
                IceEvent::Nominated { source, destination } => if source != old(self).local
                    || !destination.usable() {
                    *final(self) == *old(self) && final(control)@ == old(control)@ && result
                        == Err::<(), IceError>(IceError::AgentInvariant)
                } else {
                    &&& *final(self) == (IceRun {
                        nominated: Some(NominatedPath { source, destination }),
                        ..*old(self)
                    })
                    &&& final(control)@ == (IceRunControlView { nominated: true, ..old(control)@ })
                    &&& result == Ok::<(), IceError>(())
                },
                _ => *final(self) == *old(self) && final(control)@ == old(control)@ && result
                    == Ok::<(), IceError>(()),
            },
    {
        match event {
            IceEvent::Nominated { source, destination } => {
                if source != self.local || !destination.is_usable_address() {
                    return Err(IceError::AgentInvariant);
                }
                self.nominated = Some(NominatedPath { source, destination });
                control.report_nominated();
                Ok(())
            },
            _ => Ok(()),
        }
    }

    /// The path to hand on now, if a handoff was requested and a path works.
    pub fn handoff_path(&self, control: &IceRunControl, state: IceState) -> (path: Option<
        NominatedPath,
    >)
        ensures
            path == (if control@.handoff && state.connected() {
                self.nominated
            } else {
                None
            }),
    {
        if control.handoff_requested() && state.is_connected() {
            self.nominated
        } else {
            None
        }
    }

    /// Ends a round: the run fails when it took too long.
    pub fn end_round(&self, ice: &Ice, now_ns: u64) -> (result: Result<(), IceError>)
        ensures
            result == (if ice@.expired_at(now_ns) {
                Err::<(), IceError>(IceError::EstablishmentDeadlineExceeded)
            } else {
                Ok::<(), IceError>(())
            }),
    {
        ice.advance(now_ns)
    }
}

/// Accepts a handoff only when the agent kept the configured role.
pub fn check_handoff_role(ice: &Ice, effective: IceRole) -> (result: Result<IceRole, IceError>)
    ensures
        result == (if effective == ice@.role {
            Ok::<IceRole, IceError>(effective)
        } else {
            Err::<IceRole, IceError>(IceError::AgentInvariant)
        }),
{
    if effective != ice.configured_role() {
        return Err(IceError::AgentInvariant);
    }
    Ok(effective)
}

/// How the worker that owns the loop ended.
#[derive(Debug, Clone, Copy, PartialEq, Eq, Structural)]
pub enum WorkerExit {
    HandedOff,
    Failed(IceError),
    Panicked,
    TimedOut,
}

/// What a worker that ended before nomination means for one who waits for it.
pub fn judge_wait(exit: WorkerExit) -> (error: IceError)
    ensures
        error == (match exit {
            WorkerExit::Failed(error) => error,
            WorkerExit::TimedOut => IceError::WorkerTimeout,
            _ => IceError::WorkerFailed,
        }),
{
    match exit {
        WorkerExit::Failed(error) => error,
        WorkerExit::TimedOut => IceError::WorkerTimeout,
        _ => IceError::WorkerFailed,
    }
}

/// What a worker that was asked for its socket answers.
pub fn judge_handoff(exit: WorkerExit) -> (result: Result<(), IceError>)
    ensures
        result == (match exit {
            WorkerExit::HandedOff => Ok::<(), IceError>(()),
            WorkerExit::Failed(error) => Err::<(), IceError>(error),
            WorkerExit::Panicked => Err::<(), IceError>(IceError::WorkerFailed),
            WorkerExit::TimedOut => Err::<(), IceError>(IceError::WorkerTimeout),
        }),
{
    match exit {
        WorkerExit::HandedOff => Ok(()),
        WorkerExit::Failed(error) => Err(error),
        WorkerExit::Panicked => Err(IceError::WorkerFailed),
        WorkerExit::TimedOut => Err(IceError::WorkerTimeout),
    }
}

/// What a worker that was asked to stop answers. Only a cancelled loop has
/// stopped as asked.
pub fn judge_cancel(exit: WorkerExit) -> (result: Result<(), IceError>)
    ensures
        result == (match exit {
            WorkerExit::Failed(error) => if error == IceError::Cancelled {
                Ok::<(), IceError>(())
            } else {
                Err::<(), IceError>(error)
            },
            WorkerExit::TimedOut => Err::<(), IceError>(IceError::WorkerTimeout),
            _ => Err::<(), IceError>(IceError::WorkerFailed),
        }),
{
    match exit {
        WorkerExit::Failed(error) => {
            if error == IceError::Cancelled {
                Ok(())
            } else {
                Err(error)
            }
        },
        WorkerExit::TimedOut => Err(IceError::WorkerTimeout),
        _ => Err(IceError::WorkerFailed),
    }
}

/// Counting never exceeds a limit, and a run that is at a limit refuses the
/// next datagram.
pub proof fn law_traffic_is_bounded(run: IceRun, len: usize)
    requires
        run.is_valid(),
    ensures
        run.counting(len) is Some ==> run.counting(len)->Some_0.is_valid(),
        run.inbound == MAX_ICE_INBOUND_DATAGRAMS ==> run.counting(len) is None,
{
}

} // verus!
