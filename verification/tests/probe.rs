use latencydesk::address::{IpAddress, SocketAddress};
use latencydesk::control::{ControlKind, ReceivedControl, StreamKind};
use latencydesk::error::ProtocolError;
use latencydesk::ice::IceRole;
use latencydesk::ice_run::NominatedPath;
use latencydesk::probe::{
    challenge_from_bytes, check_probe_payload, check_remote, decode_probe, generate_challenge,
    generate_control_nonce, judge_challenge, judge_nonce, judge_probe, nonce_from_bytes,
    prepare_client, prepare_server, ChallengeStep,
    IceProbeError, IceProbeReport, IceProbeStage, NonceStep, ProbeTerms, TranscriptFault,
    MAX_PROBE_DRAWS, MAX_PROBE_PAYLOAD,
};
use latencydesk::product::active_stamp;

fn v4(port: u16) -> SocketAddress {
    SocketAddress::new(IpAddress::V4(0x7f00_0001), port)
}

fn terms() -> ProbeTerms {
    ProbeTerms {
        stamp: active_stamp(42),
        ice_generation: 3,
        client_nonce: [1; 16],
        host_nonce: [2; 16],
    }
}

fn path() -> NominatedPath {
    NominatedPath {
        source: v4(4_000),
        destination: v4(5_000),
    }
}

#[test]
fn control_nonce_is_fresh_and_nonzero() {
    let nonce = generate_control_nonce().expect("OS entropy");
    assert_ne!(nonce, [0; 16]);
    assert_ne!(nonce, generate_control_nonce().expect("OS entropy"));
    let challenge = generate_challenge().expect("OS entropy");
    assert_ne!(challenge, [0; 32]);
    assert_ne!(challenge, generate_challenge().expect("OS entropy"));
    assert_eq!(nonce_from_bytes(&[0; 16]), None);
    assert_eq!(nonce_from_bytes(&[7; 16]), Some([7; 16]));
    assert_eq!(challenge_from_bytes(&[0; 32]), None);
    assert_eq!(challenge_from_bytes(&[7; 32]), Some([7; 32]));
}

#[test]
fn same_terms_complete_the_probe() {
    let terms = terms();
    let challenge = [9; 32];
    let request = terms.message(IceProbeStage::EchoRequest, challenge);
    let response = terms.answer_request(&request).expect("response");
    assert_eq!(response.stage, IceProbeStage::EchoResponse);
    assert_eq!(response.challenge, challenge);
    let completion = terms
        .answer_response(&response, challenge)
        .expect("completion");
    let answer = terms
        .answer_completion(&completion, challenge)
        .expect("answer");
    assert_eq!(terms.check_final(&answer, challenge), Ok(()));
}

#[test]
fn other_terms_are_refused_at_every_step() {
    let terms = terms();
    let other = ProbeTerms {
        ice_generation: 4,
        ..terms
    };
    let challenge = [9; 32];
    assert_eq!(
        terms.answer_request(&other.message(IceProbeStage::EchoRequest, challenge)),
        Err(IceProbeError::Transcript(TranscriptFault::RequestBinding))
    );
    let other_nonce = ProbeTerms {
        host_nonce: [8; 16],
        ..terms
    };
    assert_eq!(
        terms.answer_request(&other_nonce.message(IceProbeStage::EchoRequest, challenge)),
        Err(IceProbeError::Transcript(TranscriptFault::NonceBinding))
    );
    assert_eq!(
        terms.answer_response(
            &terms.message(IceProbeStage::EchoResponse, [8; 32]),
            challenge
        ),
        Err(IceProbeError::Transcript(TranscriptFault::ResponseBinding))
    );
    assert_eq!(
        terms.answer_completion(&other.message(IceProbeStage::Complete, challenge), challenge),
        Err(IceProbeError::Transcript(TranscriptFault::CompletionBinding))
    );
    assert_eq!(
        terms.check_final(&other.message(IceProbeStage::Complete, challenge), challenge),
        Err(IceProbeError::Transcript(
            TranscriptFault::FinalCompletionBinding
        ))
    );
}

#[test]
fn probe_ends_need_their_role_and_path() {
    assert_eq!(
        prepare_server(1, IceRole::Controlled, Some(v4(4_000)), path()),
        Ok(v4(5_000))
    );
    assert_eq!(
        prepare_server(0, IceRole::Controlled, Some(v4(4_000)), path()),
        Err(IceProbeError::Timeout)
    );
    assert_eq!(
        prepare_server(1, IceRole::Controlling, Some(v4(4_000)), path()),
        Err(IceProbeError::Transcript(
            TranscriptFault::ServerRoleIsNotControlled
        ))
    );
    assert!(prepare_server(1, IceRole::Controlled, None, path()).is_err());
    let client = |nonce: [u8; 16], expected: SocketAddress| {
        prepare_client(
            1,
            IceRole::Controlling,
            nonce,
            [2; 16],
            Some(v4(4_000)),
            path(),
            expected,
        )
    };
    assert_eq!(client([1; 16], v4(5_000)), Ok(()));
    assert_eq!(
        client([0; 16], v4(5_000)),
        Err(IceProbeError::Transcript(TranscriptFault::ZeroNonce))
    );
    assert_eq!(
        client([1; 16], v4(5_001)),
        Err(IceProbeError::InvalidRemote {
            expected: v4(5_001),
            actual: v4(5_000),
        })
    );
    assert!(check_remote(v4(5_000), v4(5_001)).is_err());
    assert_eq!(check_remote(v4(5_000), v4(5_000)), Ok(()));
}

#[test]
fn probe_records_are_bound_to_lane_and_session() {
    let message = terms().message(IceProbeStage::EchoRequest, [9; 32]);
    let stamp = active_stamp(42);
    let record = |kind: ControlKind, session_id: u64| {
        Ok(ReceivedControl {
            kind,
            session_id,
            body: Ok(message),
        })
    };
    assert_eq!(
        decode_probe(StreamKind::Control, stamp, record(ControlKind::IceProbe, 42)),
        Ok(message)
    );
    assert_eq!(
        decode_probe(StreamKind::Input, stamp, record(ControlKind::IceProbe, 42)),
        Err(IceProbeError::Transcript(TranscriptFault::WrongLane))
    );
    assert_eq!(
        decode_probe(StreamKind::Control, stamp, record(ControlKind::Hello, 42)),
        Err(IceProbeError::Transcript(
            TranscriptFault::WrongControlBinding
        ))
    );
    assert!(decode_probe(
        StreamKind::Control,
        stamp,
        Err(ProtocolError::Malformed(1))
    )
    .is_err());
    assert_eq!(check_probe_payload(MAX_PROBE_PAYLOAD), Ok(()));
    assert_eq!(
        check_probe_payload(MAX_PROBE_PAYLOAD + 1),
        Err(IceProbeError::Transcript(
            TranscriptFault::PayloadExceedsBound
        ))
    );
}

#[test]
fn cleanup_outranks_the_outcome() {
    let report = IceProbeReport {
        local: v4(1),
        remote: v4(2),
        elapsed_ns: 5,
    };
    assert_eq!(judge_probe(Some(Ok(report)), true), Ok(report));
    assert_eq!(
        judge_probe(Some(Ok(report)), false),
        Err(IceProbeError::CleanupTimeout)
    );
    assert_eq!(judge_probe(None, true), Err(IceProbeError::Timeout));
    assert_eq!(
        judge_probe(Some(Err(IceProbeError::Entropy)), true),
        Err(IceProbeError::Entropy)
    );
}

#[test]
fn draws_are_judged_one_by_one() {
    let zero = Some(vec![0; 16]);
    let mut fresh = vec![0; 16];
    fresh[15] = 7;
    let mut nonce = [0; 16];
    nonce[15] = 7;
    assert_eq!(judge_nonce(0, &Some(fresh)), NonceStep::Done(nonce));
    assert_eq!(judge_nonce(0, &zero), NonceStep::Again);
    assert_eq!(judge_nonce(MAX_PROBE_DRAWS - 1, &zero), NonceStep::GiveUp);
    assert_eq!(judge_nonce(0, &None), NonceStep::GiveUp);
    let zero = Some(vec![0; 32]);
    assert_eq!(
        judge_challenge(2, &Some(vec![9; 32])),
        ChallengeStep::Done([9; 32])
    );
    assert_eq!(judge_challenge(1, &zero), ChallengeStep::Again);
    assert_eq!(judge_challenge(2, &zero), ChallengeStep::GiveUp);
    assert_eq!(judge_challenge(1, &None), ChallengeStep::GiveUp);
}
