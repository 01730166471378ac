use proofhub::errors::VerificationError;
use proofhub::models::PostVerificationResult;
use proofhub::models::ProodDataRisc0;
use proofhub::models::ProofDataJolt;
use proofhub::models::ProofDataMiden;
use proofhub::models::ProofDataSP1;
use proofhub::models::VerificationResult;
use proofhub::models::VerifyProof;
use proofhub::state::ProofKind;
use proofhub::state::VerifierState;
use proofhub::worker::conclude_request;
use proofhub::worker::handle_verification_result;
use proofhub::worker::miden_security_outcome;
use proofhub::worker::WorkerTask;

fn sp1_data(tx_id: &str, proof: &str, elf: &str) -> ProofDataSP1 {
    ProofDataSP1 {
        tx_id: tx_id.to_string(),
        proof_file_path: proof.to_string(),
        elf_file_path: elf.to_string(),
    }
}

#[test]
fn submit_then_get_returns_descriptor_sp1() {
    let mut state = VerifierState::new();
    let ack = state.submit_sp1(sp1_data("abc", "proof.bin", "prog.elf"));
    assert!(ack.is_submitted);
    let descriptor = state.get_sp1(&"abc".to_string()).expect("descriptor must be present");
    assert_eq!(descriptor.proof_file_path, "proof.bin");
    assert_eq!(descriptor.elf_file_path, "prog.elf");
}

#[test]
fn submit_then_get_returns_descriptor_all_kinds() {
    let mut state = VerifierState::new();
    state.submit_sp1(sp1_data("t1", "p1", "e1"));
    state.submit_miden(ProofDataMiden {
        tx_id: "t2".to_string(),
        program_hash: "hash".to_string(),
        inputs_stack: "[1]".to_string(),
        outputs_stack: "{}".to_string(),
        proof_file_path: "p2".to_string(),
    });
    state.submit_risc0(ProodDataRisc0 {
        tx_id: "t3".to_string(),
        proof_file_path: "p3".to_string(),
        risc_zero_image_id: "[1, 2, 3, 4, 5, 6, 7, 8]".to_string(),
    });
    state.submit_jolt(ProofDataJolt {
        tx_id: "t4".to_string(),
        proof_file_path: "p4".to_string(),
        elf_file_path: "e4".to_string(),
    });
    assert_eq!(state.get_sp1(&"t1".to_string()).unwrap().proof_file_path, "p1");
    assert_eq!(state.get_miden(&"t2".to_string()).unwrap().program_hash, "hash");
    assert_eq!(state.get_risc0(&"t3".to_string()).unwrap().proof_file_path, "p3");
    assert_eq!(state.get_jolt(&"t4".to_string()).unwrap().elf_file_path, "e4");
    assert!(state.get_sp1(&"t2".to_string()).is_none());
}

#[test]
fn second_submit_overwrites_first() {
    let mut state = VerifierState::new();
    state.submit_sp1(sp1_data("abc", "first.bin", "first.elf"));
    state.submit_sp1(sp1_data("abc", "second.bin", "second.elf"));
    let descriptor = state.get_sp1(&"abc".to_string()).unwrap();
    assert_eq!(descriptor.proof_file_path, "second.bin");
    assert_eq!(descriptor.elf_file_path, "second.elf");
}

#[test]
fn verify_without_submit_is_rejected_and_not_enqueued() {
    let mut state = VerifierState::new();
    let ack = state.request_verification(VerifyProof { tx_id: "ghost".to_string(), verify_type: 1 });
    assert!(!ack.is_submitted);
    assert_eq!(state.queue_len(), 0);
}

#[test]
fn verify_unknown_tx_leaves_queue_unchanged() {
    let mut state = VerifierState::new();
    state.submit_sp1(sp1_data("abc", "p", "e"));
    let ack = state.request_verification(VerifyProof { tx_id: "abc".to_string(), verify_type: 1 });
    assert!(ack.is_submitted);
    assert_eq!(state.queue_len(), 1);
    let ack = state.request_verification(VerifyProof { tx_id: "zzz".to_string(), verify_type: 1 });
    assert!(!ack.is_submitted);
    assert_eq!(state.queue_len(), 1);
}

#[test]
fn verify_with_unknown_kind_tag_is_rejected() {
    let mut state = VerifierState::new();
    state.submit_sp1(sp1_data("abc", "p", "e"));
    let ack = state.request_verification(VerifyProof { tx_id: "abc".to_string(), verify_type: 9 });
    assert!(!ack.is_submitted);
    assert_eq!(state.queue_len(), 0);
}

#[test]
fn queue_drains_in_insertion_order() {
    let mut state = VerifierState::new();
    state.submit_sp1(sp1_data("a", "pa", "ea"));
    state.submit_sp1(sp1_data("b", "pb", "eb"));
    state.request_verification(VerifyProof { tx_id: "a".to_string(), verify_type: 1 });
    state.request_verification(VerifyProof { tx_id: "b".to_string(), verify_type: 1 });
    let first = state.pop_request().unwrap();
    let second = state.pop_request().unwrap();
    assert_eq!(first.tx_id, "a");
    assert_eq!(second.tx_id, "b");
    assert!(state.pop_request().is_none());
}

#[test]
fn next_task_resolves_descriptor_for_queued_request() {
    let mut state = VerifierState::new();
    state.submit_sp1(sp1_data("abc", "proof.bin", "prog.elf"));
    state.request_verification(VerifyProof { tx_id: "abc".to_string(), verify_type: 1 });
    let (request, task) = state.next_task().unwrap();
    assert_eq!(request.tx_id, "abc");
    match task {
        WorkerTask::RunSp1(descriptor) => {
            assert_eq!(descriptor.proof_file_path, "proof.bin");
            assert_eq!(descriptor.elf_file_path, "prog.elf");
        }
        _ => panic!("an SP1 request must resolve to an SP1 run"),
    }
    assert!(state.next_task().is_none());
}

#[test]
fn kinds_use_separate_registries() {
    // A descriptor submitted under one kind does not satisfy the existence
    // check of another kind for the same transaction id.
    let mut state = VerifierState::new();
    state.submit_sp1(sp1_data("abc", "p", "e"));
    let ack = state.request_verification(VerifyProof { tx_id: "abc".to_string(), verify_type: 2 });
    assert!(!ack.is_submitted);
    assert_eq!(state.queue_len(), 0);
    let mut other = VerifierState::new();
    other.submit_miden(ProofDataMiden {
        tx_id: "abc".to_string(),
        program_hash: "h".to_string(),
        inputs_stack: "[]".to_string(),
        outputs_stack: "{}".to_string(),
        proof_file_path: "p".to_string(),
    });
    other.request_verification(VerifyProof { tx_id: "abc".to_string(), verify_type: 2 });
    let (_request, task) = other.next_task().unwrap();
    assert!(matches!(task, WorkerTask::RunMiden(_)));
}

#[test]
fn sp1_scenario_yields_positive_notification() {
    // Submit an SP1 descriptor, request verification, let the worker resolve
    // it, and conclude with a stubbed verifier returning a valid result: the
    // peer is told the transaction verified.
    let mut state = VerifierState::new();
    state.submit_sp1(sp1_data("abc", "proof.bin", "prog.elf"));
    let ack = state.request_verification(VerifyProof { tx_id: "abc".to_string(), verify_type: 1 });
    assert!(ack.is_submitted);
    let (request, task) = state.next_task().unwrap();
    assert!(matches!(task, WorkerTask::RunSp1(_)));
    let outcome = Some(Ok(VerificationResult { is_valid: true }));
    let notification: PostVerificationResult = conclude_request(request.tx_id, outcome);
    assert_eq!(notification.tx_id, "abc");
    assert!(notification.is_valid);
}

#[test]
fn every_outcome_yields_exactly_one_notification() {
    // Success, negative result, verifier error and skipped verifier each
    // produce one notification with the request's transaction id.
    let ok = conclude_request("t".to_string(), Some(Ok(VerificationResult { is_valid: true })));
    assert_eq!(ok.tx_id, "t");
    assert!(ok.is_valid);
    let negative = conclude_request(
        "t".to_string(),
        Some(Ok(VerificationResult { is_valid: false })),
    );
    assert_eq!(negative.tx_id, "t");
    assert!(!negative.is_valid);
    let errored = conclude_request(
        "t".to_string(),
        Some(Err(VerificationError::IOError("gone".to_string(), "open".to_string()))),
    );
    assert_eq!(errored.tx_id, "t");
    assert!(!errored.is_valid);
    let skipped = conclude_request("t".to_string(), None);
    assert_eq!(skipped.tx_id, "t");
    assert!(!skipped.is_valid);
}

#[test]
fn verifier_errors_are_downgraded_to_invalid() {
    assert!(handle_verification_result(Ok(VerificationResult { is_valid: true })));
    assert!(!handle_verification_result(Ok(VerificationResult { is_valid: false })));
    assert!(!handle_verification_result(Err(VerificationError::JSONError(
        "bad json".to_string(),
        "proof".to_string(),
    ))));
}

#[test]
fn miden_outcome_requires_security_level_96() {
    assert!(miden_security_outcome(Ok(96)).is_valid);
    assert!(!miden_security_outcome(Ok(95)).is_valid);
    assert!(!miden_security_outcome(Ok(128)).is_valid);
    assert!(!miden_security_outcome(Err(VerificationError::DigestError("bad".to_string())))
        .is_valid);
}

#[test]
fn kind_tags_round_trip() {
    assert!(matches!(ProofKind::from_tag(1), Some(ProofKind::Sp1)));
    assert!(matches!(ProofKind::from_tag(2), Some(ProofKind::Miden)));
    assert!(matches!(ProofKind::from_tag(3), Some(ProofKind::Risc0)));
    assert!(matches!(ProofKind::from_tag(4), Some(ProofKind::Jolt)));
    assert!(ProofKind::from_tag(0).is_none());
    assert!(ProofKind::from_tag(5).is_none());
    assert_eq!(ProofKind::Sp1.tag(), 1);
    assert_eq!(ProofKind::Jolt.tag(), 4);
}
