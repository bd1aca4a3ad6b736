use latencydesk::telemetry::{
    ClientDurations, ClientFrameTrace, ClockEstimate, FrameTraceRecord, HostDurations,
    HostFrameTrace, Percentiles, TraceCollector, TracePushOutcome,
};

fn record(frame_id: u64) -> FrameTraceRecord {
    FrameTraceRecord {
        host: HostFrameTrace {
            frame_id,
            capture_done_ns: 10,
            encode_begin_ns: 12,
            encode_done_ns: 20,
            send_ns: 21,
        },
        client: ClientFrameTrace {
            frame_id,
            receive_ns: 30,
            decode_begin_ns: 31,
            decode_done_ns: 36,
            present_submit_ns: 38,
        },
        encoded_bytes: 100,
        datagrams: 2,
        recovery_count: 0,
    }
}

#[test]
fn nearest_rank_percentiles_are_stable() {
    let samples: Vec<u64> = (1..=100).collect();
    let summary = Percentiles::from_samples(&samples).expect("nonempty");
    assert_eq!(summary.p50, 50);
    assert_eq!(summary.p95, 95);
    assert_eq!(summary.p99, 99);
}

#[test]
fn collector_evicts_oldest_and_exports_clock_domains() {
    let mut collector = TraceCollector::new(2);
    assert_eq!(collector.push(record(1)), TracePushOutcome::Inserted);
    assert_eq!(collector.push(record(2)), TracePushOutcome::Inserted);
    assert_eq!(collector.push(record(3)), TracePushOutcome::EvictedOldest);
    let csv = collector.to_csv();
    assert!(!csv.lines().any(|line| line.starts_with("1,")));
    assert!(csv.lines().any(|line| line.starts_with("3,")));
    let json = collector.to_json();
    assert!(json.contains("host_and_client_separate"));
    assert_eq!(collector.evicted(), 1);
}

#[test]
fn non_monotonic_record_is_rejected() {
    let mut invalid = record(1);
    invalid.host.encode_done_ns = 1;
    let mut collector = TraceCollector::new(1);
    assert_eq!(
        collector.push(invalid),
        TracePushOutcome::RejectedNonMonotonic
    );
    assert!(collector.is_empty());
}

#[test]
fn durations_are_differences_of_neighbouring_times() {
    assert_eq!(
        record(1).host.durations(),
        Some(HostDurations {
            capture_to_encode_ns: 2,
            encode_ns: 8,
            post_encode_queue_ns: 1,
        })
    );
    assert_eq!(
        record(1).client.durations(),
        Some(ClientDurations {
            receive_queue_ns: 1,
            decode_ns: 5,
            post_decode_queue_ns: 2,
        })
    );
    let mut backwards = record(1);
    backwards.client.receive_ns = 32;
    assert_eq!(backwards.client.durations(), None);
    assert!(!backwards.valid());
    let mut mixed = record(1);
    mixed.client.frame_id = 2;
    assert!(!mixed.valid());
}

#[test]
fn clock_estimate_needs_samples_and_certainty() {
    let estimate = ClockEstimate {
        remote_minus_local_ns: -5,
        uncertainty_ns: 100,
        sample_count: 8,
    };
    assert!(estimate.is_usable(100, 8));
    assert!(!estimate.is_usable(99, 8));
    assert!(!estimate.is_usable(100, 9));
}

#[test]
fn percentiles_of_unsorted_samples() {
    assert_eq!(Percentiles::from_samples(&[]), None);
    assert_eq!(
        Percentiles::from_samples(&[9, 1, 5]),
        Some(Percentiles {
            count: 3,
            minimum: 1,
            p50: 5,
            p95: 9,
            p99: 9,
            maximum: 9,
        })
    );
}

#[test]
fn exports_have_their_exact_text() {
    let mut collector = TraceCollector::new(4);
    collector.push(record(7));
    let mut second = record(8);
    second.recovery_count = 3;
    collector.push(second);
    assert_eq!(
        collector.to_csv(),
        "frame_id,host_capture_done_ns,host_encode_begin_ns,host_encode_done_ns,host_send_ns,client_receive_ns,client_decode_begin_ns,client_decode_done_ns,client_present_submit_ns,encoded_bytes,datagrams,recovery_count\n\
         7,10,12,20,21,30,31,36,38,100,2,0\n\
         8,10,12,20,21,30,31,36,38,100,2,3\n"
    );
    assert_eq!(
        TraceCollector::new(1).to_json(),
        "{\"schema\":1,\"clock_domains\":\"host_and_client_separate\",\"records\":[],\"rejected\":0,\"evicted\":0}"
    );
    let json = collector.to_json();
    assert!(json.starts_with(
        "{\"schema\":1,\"clock_domains\":\"host_and_client_separate\",\"records\":[{\"frame_id\":7,\"host\":{\"capture_done_ns\":10,\"encode_begin_ns\":12,\"encode_done_ns\":20,\"send_ns\":21},\"client\":{\"receive_ns\":30,\"decode_begin_ns\":31,\"decode_done_ns\":36,\"present_submit_ns\":38},\"encoded_bytes\":100,\"datagrams\":2,\"recovery_count\":0},{\"frame_id\":8,"
    ));
    assert!(json.ends_with("],\"rejected\":0,\"evicted\":0}"));
}

#[test]
fn summary_covers_every_stage() {
    let mut collector = TraceCollector::new(2);
    for frame_id in 0..5 {
        collector.push(record(frame_id));
    }
    let summary = collector.summary();
    assert_eq!(collector.len(), 2);
    assert_eq!(summary.records, 2);
    assert_eq!(summary.evicted, 3);
    assert_eq!(summary.host_encode_ns.expect("samples").p50, 8);
    assert_eq!(summary.client_decode_ns.expect("samples").maximum, 5);
    assert_eq!(TraceCollector::new(1).summary().host_encode_ns, None);
}
