//! Decisions of bounded same-socket STUN server-reflexive address discovery.
//!
//! Discovery is connectivity metadata only. It neither authenticates a peer
//! nor authorizes a session. Times are nanoseconds since the transaction
//! started.

use crate::address::{IpAddress, SocketAddress, V4_BROADCAST};
use crate::entropy::random_bytes;
use vstd::prelude::*;

verus! {

/// Requests that one discovery may send.
pub const MAX_REQUESTS: u8 = 7;

/// Longest discovery, in nanoseconds.
pub const MAX_TOTAL_TIMEOUT_NS: u64 = 40_000_000_000;

/// Longest first wait for an answer, in nanoseconds.
pub const MAX_INITIAL_RTO_NS: u64 = 5_000_000_000;

/// Unrelated datagrams that one discovery tolerates.
pub const MAX_IGNORED_DATAGRAMS: u32 = 32;

/// Late datagrams that are read away after the answer.
pub const MAX_DRAINED_DATAGRAMS: u32 = 64;

/// Bytes of a transaction id.
pub const TRANSACTION_ID_LEN: usize = 12;

/// Why a discovery fails.
#[derive(Debug, Clone, Copy, PartialEq, Eq, Structural)]
pub enum StunDiscoveryError {
    InvalidPolicy,
    InvalidServerAddress,
    AddressFamilyMismatch,
    InvalidMappedAddress,
    Randomness,
    TooManyUnexpectedDatagrams,
    Timeout { requests_sent: u8, ignored_datagrams: u32 },
    Io,
}

/// Policy of a discovery.
#[derive(Debug, Clone, Copy, PartialEq, Eq, Structural)]
pub struct StunDiscoveryConfig {
    initial_rto_ns: u64,
    max_requests: u8,
    total_timeout_ns: u64,
}

/// A policy as mathematics sees it.
pub struct StunPolicy {
    pub initial_rto_ns: u64,
    pub max_requests: u8,
    pub total_timeout_ns: u64,
}

impl StunPolicy {
    /// Every value is within its bounds.
    pub open spec fn is_valid(self) -> bool {
        &&& 0 < self.initial_rto_ns <= MAX_INITIAL_RTO_NS
        &&& 1 <= self.max_requests <= MAX_REQUESTS
        &&& self.initial_rto_ns <= self.total_timeout_ns <= MAX_TOTAL_TIMEOUT_NS
    }
}

impl View for StunDiscoveryConfig {
    type V = StunPolicy;

    closed spec fn view(&self) -> StunPolicy {
        StunPolicy {
            initial_rto_ns: self.initial_rto_ns,
            max_requests: self.max_requests,
            total_timeout_ns: self.total_timeout_ns,
        }
    }
}

impl Default for StunDiscoveryConfig {
    fn default() -> (config: Self)
        ensures
            config@ == (StunPolicy {
                initial_rto_ns: 500_000_000,
                max_requests: 7,
                total_timeout_ns: 39_500_000_000,
            }),
            config@.is_valid(),
    {
        StunDiscoveryConfig {
            initial_rto_ns: 500_000_000,
            max_requests: MAX_REQUESTS,
            total_timeout_ns: 39_500_000_000,
        }
    }
}

impl StunDiscoveryConfig {
    /// A policy within all bounds.
    pub fn new(initial_rto_ns: u64, max_requests: u8, total_timeout_ns: u64) -> (result: Result<
        Self,
        StunDiscoveryError,
    >)
        ensures
            ({
                let policy = StunPolicy { initial_rto_ns, max_requests, total_timeout_ns };
                &&& result is Ok <==> policy.is_valid()
                &&& result is Ok ==> result->Ok_0@ == policy
                &&& result is Err ==> result->Err_0 == StunDiscoveryError::InvalidPolicy
            }),
    {
        if initial_rto_ns == 0 || initial_rto_ns > MAX_INITIAL_RTO_NS || max_requests < 1
            || max_requests > MAX_REQUESTS || total_timeout_ns < initial_rto_ns
            || total_timeout_ns > MAX_TOTAL_TIMEOUT_NS {
            return Err(StunDiscoveryError::InvalidPolicy);
        }
        Ok(StunDiscoveryConfig { initial_rto_ns, max_requests, total_timeout_ns })
    }

    /// First wait for an answer, in nanoseconds.
    pub fn initial_rto(self) -> (rto_ns: u64)
        ensures
            rto_ns == self@.initial_rto_ns,
    {
        self.initial_rto_ns
    }

    /// Requests that may be sent.
    pub fn max_requests(self) -> (count: u8)
        ensures
            count == self@.max_requests,
    {
        self.max_requests
    }

    /// Longest discovery, in nanoseconds.
    pub fn total_timeout(self) -> (timeout_ns: u64)
        ensures
            timeout_ns == self@.total_timeout_ns,
    {
        self.total_timeout_ns
    }
}

/// What a discovery found.
#[derive(Debug, Clone, Copy, PartialEq, Eq, Structural)]
pub struct StunDiscoveryReport {
    pub local_address: SocketAddress,
    pub mapped_address: SocketAddress,
    pub server_address: SocketAddress,
    pub requests_sent: u8,
    pub ignored_datagrams: u32,
    pub drained_datagrams: u32,
    pub elapsed_ns: u64,
}

/// The address names one host and has a port.
pub open spec fn is_server_address(address: SocketAddress) -> bool {
    &&& address.port != 0
    &&& !address.ip.unspecified()
    &&& !address.ip.multicast()
    &&& address.ip != IpAddress::V4(V4_BROADCAST)
}

/// The address can be the reflexive address of a socket.
pub open spec fn is_mapped_address(address: SocketAddress) -> bool {
    address.port != 0 && !address.ip.unspecified() && !address.ip.multicast()
}

/// Accepts a server that requests can be sent to.
pub fn validate_server_address(address: SocketAddress) -> (result: Result<(), StunDiscoveryError>)
    ensures
        result == (if is_server_address(address) {
            Ok::<(), StunDiscoveryError>(())
        } else {
            Err::<(), StunDiscoveryError>(StunDiscoveryError::InvalidServerAddress)
        }),
{
    let broadcast: bool = match address.ip {
        IpAddress::V4(value) => value == V4_BROADCAST,
        IpAddress::V6(_) => false,
    };
    if address.port == 0 || address.ip.is_unspecified() || address.ip.is_multicast() || broadcast {
        return Err(StunDiscoveryError::InvalidServerAddress);
    }
    Ok(())
}

/// Accepts a reflexive address that a peer can use.
pub fn socket_from_mapped(ip: IpAddress, port: u16) -> (result: Result<
    SocketAddress,
    StunDiscoveryError,
>)
    ensures
        result == (if is_mapped_address(SocketAddress::at(ip, port)) {
            Ok::<SocketAddress, StunDiscoveryError>(SocketAddress::at(ip, port))
        } else {
            Err::<SocketAddress, StunDiscoveryError>(StunDiscoveryError::InvalidMappedAddress)
        }),
{
    if port == 0 || ip.is_unspecified() || ip.is_multicast() {
        return Err(StunDiscoveryError::InvalidMappedAddress);
    }
    Ok(SocketAddress::new(ip, port))
}

/// Counts an unrelated datagram.
pub fn count_ignored(current: u32) -> (result: Result<u32, StunDiscoveryError>)
    ensures
        result == (if current + 1 > MAX_IGNORED_DATAGRAMS {
            Err::<u32, StunDiscoveryError>(StunDiscoveryError::TooManyUnexpectedDatagrams)
        } else {
            Ok::<u32, StunDiscoveryError>((current + 1) as u32)
        }),
{
    if current >= MAX_IGNORED_DATAGRAMS {
        Err(StunDiscoveryError::TooManyUnexpectedDatagrams)
    } else {
        Ok(current + 1)
    }
}

/// Counts a late datagram that was read away.
pub fn count_drained(drained: u32) -> (result: Result<u32, StunDiscoveryError>)
    ensures
        result == (if drained + 1 > MAX_DRAINED_DATAGRAMS {
            Err::<u32, StunDiscoveryError>(StunDiscoveryError::TooManyUnexpectedDatagrams)
        } else {
            Ok::<u32, StunDiscoveryError>((drained + 1) as u32)
        }),
{
    if drained >= MAX_DRAINED_DATAGRAMS {
        Err(StunDiscoveryError::TooManyUnexpectedDatagrams)
    } else {
        Ok(drained + 1)
    }
}

/// A fresh transaction id from the operating system's randomness.
pub fn random_transaction_id() -> (result: Result<Vec<u8>, StunDiscoveryError>)
    ensures
        match result {
            Ok(id) => id@.len() == TRANSACTION_ID_LEN,
            Err(error) => error == StunDiscoveryError::Randomness,
        },
{
    match random_bytes(TRANSACTION_ID_LEN) {
        Some(bytes) => Ok(bytes),
        None => Err(StunDiscoveryError::Randomness),
    }
}

/// Why reading from the socket gave no datagram.
#[derive(Debug, Clone, Copy, PartialEq, Eq, Structural)]
pub enum ReceiveFault {
    /// The read timed out or would block.
    Idle,
    Interrupted,
    Failed,
}

/// What follows a read that gave no datagram.
#[derive(Debug, Clone, Copy, PartialEq, Eq, Structural)]
pub enum AfterFault {
    /// Nothing came in time.
    Stop,
    /// Read again.
    Retry,
}

/// Decides what follows a read that gave no datagram.
pub fn judge_receive_fault(fault: ReceiveFault) -> (result: Result<AfterFault, StunDiscoveryError>)
    ensures
        result == (match fault {
            ReceiveFault::Idle => Ok::<AfterFault, StunDiscoveryError>(AfterFault::Stop),
            ReceiveFault::Interrupted => Ok::<AfterFault, StunDiscoveryError>(AfterFault::Retry),
            ReceiveFault::Failed => Err::<AfterFault, StunDiscoveryError>(StunDiscoveryError::Io),
        }),
{
    match fault {
        ReceiveFault::Idle => Ok(AfterFault::Stop),
        ReceiveFault::Interrupted => Ok(AfterFault::Retry),
        ReceiveFault::Failed => Err(StunDiscoveryError::Io),
    }
}

/// Joins the result of an operation with the attempt to restore the socket's
/// read timeout: the operation's own error comes first.
pub fn judge_restore<T>(result: Result<T, StunDiscoveryError>, restored: bool) -> (joined: Result<
    T,
    StunDiscoveryError,
>)
    ensures
        joined == (match result {
            Ok(value) => if restored {
                Ok::<T, StunDiscoveryError>(value)
            } else {
                Err::<T, StunDiscoveryError>(StunDiscoveryError::Io)
            },
            Err(error) => Err::<T, StunDiscoveryError>(error),
        }),
{
    match result {
        Ok(value) => {
            if restored {
                Ok(value)
            } else {
                Err(StunDiscoveryError::Io)
            }
        },
        Err(error) => Err(error),
    }
}

/// A transaction as mathematics sees it.
pub struct StunTransactionView {
    pub local: SocketAddress,
    pub server: SocketAddress,
    pub policy: StunPolicy,
    pub rto_ns: u64,
    pub requests_sent: u8,
    pub ignored: u32,
}

impl StunTransactionView {
    /// The policy is in its bounds and no limit is exceeded.
    pub open spec fn is_valid(self) -> bool {
        &&& self.policy.is_valid()
        &&& self.local.same_family(self.server)
        &&& self.requests_sent <= self.policy.max_requests
        &&& self.ignored <= MAX_IGNORED_DATAGRAMS
    }

    /// Another request may be sent.
    pub open spec fn may_request(self, now_ns: u64) -> bool {
        self.requests_sent < self.policy.max_requests && now_ns < self.policy.total_timeout_ns
    }

    /// When the wait for an answer to a request sent now ends.
    pub open spec fn response_deadline(self, now_ns: u64) -> u64 {
        if now_ns + self.rto_ns < self.policy.total_timeout_ns {
            (now_ns + self.rto_ns) as u64
        } else {
            self.policy.total_timeout_ns
        }
    }

    /// A datagram from the server that answers the transaction with a usable
    /// address of the socket's version.
    pub open spec fn answers(self, source: SocketAddress, mapped: Option<(IpAddress, u16)>) -> bool {
        &&& source == self.server
        &&& mapped is Some
        &&& is_mapped_address(SocketAddress::at(mapped->Some_0.0, mapped->Some_0.1))
        &&& mapped->Some_0.0 is V4 == self.local.ip is V4
    }

    /// The wait after one without an answer: twice as long.
    pub open spec fn next_rto(self) -> u64 {
        if self.rto_ns * 2 > u64::MAX {
            MAX_INITIAL_RTO_NS
        } else {
            (self.rto_ns * 2) as u64
        }
    }
}

/// One discovery transaction.
#[derive(Debug)]
pub struct StunTransaction {
    local: SocketAddress,
    server: SocketAddress,
    config: StunDiscoveryConfig,
    rto_ns: u64,
    requests_sent: u8,
    ignored: u32,
}

impl View for StunTransaction {
    type V = StunTransactionView;

    closed spec fn view(&self) -> StunTransactionView {
        StunTransactionView {
            local: self.local,
            server: self.server,
            policy: self.config@,
            rto_ns: self.rto_ns,
            requests_sent: self.requests_sent,
            ignored: self.ignored,
        }
    }
}

impl StunTransaction {
    /// A transaction from one socket with one server.
    pub fn new(local: SocketAddress, server: SocketAddress, config: StunDiscoveryConfig) -> (result:
        Result<Self, StunDiscoveryError>)
        requires
            config@.is_valid(),
        ensures
            if !is_server_address(server) {
                result is Err && result->Err_0 == StunDiscoveryError::InvalidServerAddress
            } else if !local.same_family(server) {
                result is Err && result->Err_0 == StunDiscoveryError::AddressFamilyMismatch
            } else {
                &&& result is Ok
                &&& result->Ok_0@ == (StunTransactionView {
                    local,
                    server,
                    policy: config@,
                    rto_ns: config@.initial_rto_ns,
                    requests_sent: 0,
                    ignored: 0,
                })
                &&& result->Ok_0@.is_valid()
            },
    {
        match validate_server_address(server) {
            Err(error) => return Err(error),
            Ok(()) => {},
        }
        if local.is_ipv4() != server.is_ipv4() {
            return Err(StunDiscoveryError::AddressFamilyMismatch);
        }
        Ok(
            StunTransaction {
                local,
                server,
                config,
                rto_ns: config.initial_rto_ns,
                requests_sent: 0,
                ignored: 0,
            },
        )
    }

    /// Whether another request may be sent; the transaction has timed out
    /// otherwise.
    pub fn check_request(&self, now_ns: u64) -> (result: Result<(), StunDiscoveryError>)
        ensures
            result == (if self@.may_request(now_ns) {
                Ok::<(), StunDiscoveryError>(())
            } else {
                Err::<(), StunDiscoveryError>(
                    StunDiscoveryError::Timeout {
                        requests_sent: self@.requests_sent,
                        ignored_datagrams: self@.ignored,
                    },
                )
            }),
    {
        if self.requests_sent < self.config.max_requests && now_ns < self.config.total_timeout_ns {
            return Ok(());
        }
        Err(
            StunDiscoveryError::Timeout {
                requests_sent: self.requests_sent,
                ignored_datagrams: self.ignored,
            },
        )
    }

    /// Counts a sent request and says when the wait for its answer ends.
    pub fn request_sent(&mut self, now_ns: u64) -> (response_deadline_ns: u64)
        requires
            old(self)@.is_valid(),
            old(self)@.requests_sent < old(self)@.policy.max_requests,
        ensures
            final(self)@.is_valid(),
            final(self)@ == (StunTransactionView {
                requests_sent: (old(self)@.requests_sent + 1) as u8,
                ..old(self)@
            }),
            response_deadline_ns == old(self)@.response_deadline(now_ns),
    {
        self.requests_sent += 1;
        let deadline_ns: u64 = self.config.total_timeout_ns;
        match now_ns.checked_add(self.rto_ns) {
            Some(end_ns) => {
                if end_ns < deadline_ns {
                    end_ns
                } else {
                    deadline_ns
                }
            },
            None => deadline_ns,
        }
    }

    /// How long the next read may take, or `None` when the wait is over.
    pub fn receive_timeout(&self, now_ns: u64, response_deadline_ns: u64) -> (timeout_ns: Option<
        u64,
    >)
        ensures
            timeout_ns == (if now_ns < response_deadline_ns {
                Some((response_deadline_ns - now_ns) as u64)
            } else {
                None
            }),
    {
        if now_ns >= response_deadline_ns {
            return None;
        }
        Some(response_deadline_ns - now_ns)
    }

    /// Takes a datagram. `mapped` is what it decodes to, if it is a sound
    /// answer to this transaction. The result is the reflexive address, or
    /// `None` for an unrelated datagram, which is counted.
    pub fn take_datagram(&mut self, source: SocketAddress, mapped: Option<(IpAddress, u16)>) -> (
    result: Result<Option<SocketAddress>, StunDiscoveryError>)
        requires
            old(self)@.is_valid(),
        ensures
            final(self)@.is_valid(),
            if old(self)@.answers(source, mapped) {
                final(self)@ == old(self)@ && result == Ok::<
                    Option<SocketAddress>,
                    StunDiscoveryError,
                >(Some(SocketAddress::at(mapped->Some_0.0, mapped->Some_0.1)))
            } else if old(self)@.ignored + 1 > MAX_IGNORED_DATAGRAMS {
                final(self)@ == old(self)@ && result == Err::<
                    Option<SocketAddress>,
                    StunDiscoveryError,
                >(StunDiscoveryError::TooManyUnexpectedDatagrams)
            } else {
                final(self)@ == (StunTransactionView {
                    ignored: (old(self)@.ignored + 1) as u32,
                    ..old(self)@
                }) && result == Ok::<Option<SocketAddress>, StunDiscoveryError>(None)
            },
    {
        if source == self.server {
            match mapped {
                Some((ip, port)) => {
                    match socket_from_mapped(ip, port) {
                        Ok(address) => {
                            if address.is_ipv4() == self.local.is_ipv4() {
                                return Ok(Some(address));
                            }
                        },
                        Err(_) => {},
                    }
                },
                None => {},
            }
        }
        match count_ignored(self.ignored) {
            Ok(count) => {
                self.ignored = count;
                Ok(None)
            },
            Err(error) => Err(error),
        }
    }

    /// Doubles the wait after a request without an answer.
    pub fn back_off(&mut self)
        requires
            old(self)@.is_valid(),
        ensures
            final(self)@.is_valid(),
            final(self)@ == (StunTransactionView { rto_ns: old(self)@.next_rto(), ..old(self)@ }),
    {
        match self.rto_ns.checked_mul(2) {
            Some(rto_ns) => {
                self.rto_ns = rto_ns;
            },
            None => {
                self.rto_ns = MAX_INITIAL_RTO_NS;
            },
        }
    }

    /// The report of a transaction that was answered.
    pub fn report(
        &self,
        mapped_address: SocketAddress,
        drained_datagrams: u32,
        elapsed_ns: u64,
    ) -> (report: StunDiscoveryReport)
        ensures
            report == (StunDiscoveryReport {
                local_address: self@.local,
                mapped_address,
                server_address: self@.server,
                requests_sent: self@.requests_sent,
                ignored_datagrams: self@.ignored,
                drained_datagrams,
                elapsed_ns,
            }),
    {
        StunDiscoveryReport {
            local_address: self.local,
            mapped_address,
            server_address: self.server,
            requests_sent: self.requests_sent,
            ignored_datagrams: self.ignored,
            drained_datagrams,
            elapsed_ns,
        }
    }
}

/// A wait never reaches beyond the whole discovery's deadline, and a
/// transaction that has sent all its requests sends no more.
pub proof fn law_discovery_is_bounded(transaction: StunTransactionView, now_ns: u64)
    requires
        transaction.is_valid(),
    ensures
        transaction.response_deadline(now_ns) <= transaction.policy.total_timeout_ns,
        transaction.policy.total_timeout_ns <= MAX_TOTAL_TIMEOUT_NS,
        transaction.requests_sent == MAX_REQUESTS ==> !transaction.may_request(now_ns),
        now_ns >= MAX_TOTAL_TIMEOUT_NS ==> !transaction.may_request(now_ns),
{
}

/// A datagram from another address is never taken for the answer.
pub proof fn law_only_the_server_answers(
    transaction: StunTransactionView,
    source: SocketAddress,
    mapped: Option<(IpAddress, u16)>,
)
    requires
        source != transaction.server,
    ensures
        !transaction.answers(source, mapped),
{
}

} // verus!
