use latencydesk::address::{IpAddress, SocketAddress};
use latencydesk::stun::{
    count_drained, count_ignored, judge_receive_fault, judge_restore, random_transaction_id,
    socket_from_mapped, validate_server_address, AfterFault, ReceiveFault, StunDiscoveryConfig,
    StunDiscoveryError, StunTransaction, MAX_DRAINED_DATAGRAMS, MAX_IGNORED_DATAGRAMS,
};

const SECOND: u64 = 1_000_000_000;
const MILLISECOND: u64 = 1_000_000;

fn v4(last: u32, port: u16) -> SocketAddress {
    SocketAddress::new(IpAddress::V4(0x7f00_0000 + last), port)
}

fn fast_policy(max_requests: u8) -> StunDiscoveryConfig {
    StunDiscoveryConfig::new(10 * MILLISECOND, max_requests, 100 * MILLISECOND)
        .expect("test policy")
}

fn transaction(max_requests: u8) -> StunTransaction {
    StunTransaction::new(v4(1, 4_000), v4(1, 3_478), fast_policy(max_requests))
        .expect("transaction")
}

#[test]
fn invalid_server_policy_and_address_family_are_rejected() {
    assert!(StunDiscoveryConfig::new(0, 1, SECOND).is_err());
    assert!(StunDiscoveryConfig::new(10 * MILLISECOND, 0, SECOND).is_err());
    let client = v4(1, 4_000);
    let invalid = SocketAddress::new(IpAddress::V4(0), 3478);
    assert!(matches!(
        StunTransaction::new(client, invalid, fast_policy(1)),
        Err(StunDiscoveryError::InvalidServerAddress)
    ));
    let ipv6 = SocketAddress::new(IpAddress::V6(1), 3478);
    assert!(matches!(
        StunTransaction::new(client, ipv6, fast_policy(1)),
        Err(StunDiscoveryError::AddressFamilyMismatch)
    ));
}

#[test]
fn policy_bounds_are_exact() {
    let policy = fast_policy(3);
    assert_eq!(policy.initial_rto(), 10 * MILLISECOND);
    assert_eq!(policy.max_requests(), 3);
    assert_eq!(policy.total_timeout(), 100 * MILLISECOND);
    assert!(StunDiscoveryConfig::new(10 * MILLISECOND, 8, SECOND).is_err());
    assert!(StunDiscoveryConfig::new(10 * MILLISECOND, 7, 41 * SECOND).is_err());
    assert!(StunDiscoveryConfig::new(6 * SECOND, 7, 40 * SECOND).is_err());
    let default = StunDiscoveryConfig::default();
    assert!(StunDiscoveryConfig::new(
        default.initial_rto(),
        default.max_requests(),
        default.total_timeout()
    )
    .is_ok());
}

#[test]
fn retransmission_doubles_and_ends() {
    let mut transaction = transaction(3);
    assert_eq!(transaction.check_request(0), Ok(()));
    assert_eq!(transaction.request_sent(0), 10 * MILLISECOND);
    transaction.back_off();
    assert_eq!(
        transaction.request_sent(10 * MILLISECOND),
        30 * MILLISECOND
    );
    transaction.back_off();
    assert_eq!(
        transaction.request_sent(90 * MILLISECOND),
        100 * MILLISECOND
    );
    assert_eq!(
        transaction.check_request(95 * MILLISECOND),
        Err(StunDiscoveryError::Timeout {
            requests_sent: 3,
            ignored_datagrams: 0,
        })
    );
    assert_eq!(
        transaction.receive_timeout(95 * MILLISECOND, 100 * MILLISECOND),
        Some(5 * MILLISECOND)
    );
    assert_eq!(
        transaction.receive_timeout(100 * MILLISECOND, 100 * MILLISECOND),
        None
    );
}

#[test]
fn only_the_server_answers() {
    let mut transaction = transaction(1);
    let mapped = (IpAddress::V4(0xcb00_7105), 4_242);
    assert_eq!(
        transaction.take_datagram(v4(1, 3_479), Some(mapped)),
        Ok(None)
    );
    assert_eq!(transaction.take_datagram(v4(1, 3_478), None), Ok(None));
    assert_eq!(
        transaction.take_datagram(v4(1, 3_478), Some((IpAddress::V6(5), 4_242))),
        Ok(None)
    );
    assert_eq!(
        transaction.take_datagram(v4(1, 3_478), Some((IpAddress::V4(0), 4_242))),
        Ok(None)
    );
    let answer = SocketAddress::new(mapped.0, mapped.1);
    assert_eq!(
        transaction.take_datagram(v4(1, 3_478), Some(mapped)),
        Ok(Some(answer))
    );
    let report = transaction.report(answer, 2, 77);
    assert_eq!(report.ignored_datagrams, 4);
    assert_eq!(report.drained_datagrams, 2);
    assert_eq!(report.elapsed_ns, 77);
    assert_eq!(report.mapped_address, answer);
}

#[test]
fn noise_is_bounded() {
    let mut transaction = transaction(1);
    for _ in 0..MAX_IGNORED_DATAGRAMS {
        assert_eq!(transaction.take_datagram(v4(9, 9), None), Ok(None));
    }
    assert_eq!(
        transaction.take_datagram(v4(9, 9), None),
        Err(StunDiscoveryError::TooManyUnexpectedDatagrams)
    );
    assert_eq!(count_ignored(0), Ok(1));
    assert_eq!(
        count_ignored(MAX_IGNORED_DATAGRAMS),
        Err(StunDiscoveryError::TooManyUnexpectedDatagrams)
    );
    assert_eq!(
        count_drained(MAX_DRAINED_DATAGRAMS),
        Err(StunDiscoveryError::TooManyUnexpectedDatagrams)
    );
}

#[test]
fn unusable_addresses_are_no_servers_or_mappings() {
    for ip in [
        IpAddress::V4(0),
        IpAddress::V4(0xe000_0001),
        IpAddress::V4(0xffff_ffff),
    ] {
        assert_eq!(
            validate_server_address(SocketAddress::new(ip, 3_478)),
            Err(StunDiscoveryError::InvalidServerAddress)
        );
    }
    for ip in [IpAddress::V4(0), IpAddress::V4(0xe000_0001)] {
        assert_eq!(
            socket_from_mapped(ip, 3_478),
            Err(StunDiscoveryError::InvalidMappedAddress)
        );
    }
    assert_eq!(
        socket_from_mapped(IpAddress::V4(0x0808_0808), 0),
        Err(StunDiscoveryError::InvalidMappedAddress)
    );
}

#[test]
fn socket_faults_are_judged() {
    assert_eq!(judge_receive_fault(ReceiveFault::Idle), Ok(AfterFault::Stop));
    assert_eq!(
        judge_receive_fault(ReceiveFault::Interrupted),
        Ok(AfterFault::Retry)
    );
    assert_eq!(
        judge_receive_fault(ReceiveFault::Failed),
        Err(StunDiscoveryError::Io)
    );
    assert_eq!(judge_restore(Ok(5_u8), true), Ok(5));
    assert_eq!(judge_restore(Ok(5_u8), false), Err(StunDiscoveryError::Io));
    assert_eq!(
        judge_restore::<u8>(Err(StunDiscoveryError::InvalidPolicy), false),
        Err(StunDiscoveryError::InvalidPolicy)
    );
}

#[test]
fn transaction_ids_are_fresh() {
    let first = random_transaction_id().expect("entropy");
    assert_eq!(first.len(), 12);
    assert_ne!(first, random_transaction_id().expect("entropy"));
}
