use base64::Engine;

use xvault::coordinator::decode;
use xvault::coordinator::next_action;
use xvault::coordinator::CycleAction;
use xvault::coordinator::step;
use xvault::coordinator::CycleEvent;
use xvault::coordinator::CycleState;
use xvault::coordinator::EncodedProof;
use xvault::entry::entrypoint;
use xvault::entry::EntryAction;
use xvault::errors::PipelineError;
use xvault::errors::Stage;

fn b64(bytes: &[u8]) -> String {
    base64::engine::general_purpose::STANDARD.encode(bytes)
}

fn good_proof_pair() -> EncodedProof {
    EncodedProof {
        proof: b64(&[0, 1, 2, 3]),
        inputs: b64(&[9, 8, 7]),
    }
}

#[test]
fn decode_recovers_both_fields() {
    let (proof, inputs) = decode(&good_proof_pair()).expect("valid base64 decodes");
    assert_eq!(proof, vec![0, 1, 2, 3]);
    assert_eq!(inputs, vec![9, 8, 7]);
}

#[test]
fn decode_fails_on_invalid_base64() {
    let bad = EncodedProof {
        proof: "!!!not base64!!!".to_string(),
        inputs: b64(&[1]),
    };
    match decode(&bad) {
        Err(PipelineError::DecodeError { stage: Stage::AwaitingProofResult }) => {}
        _ => panic!("invalid base64 must poison the artifact"),
    }
    let bad_inputs = EncodedProof {
        proof: b64(&[1]),
        inputs: "%%%".to_string(),
    };
    assert!(decode(&bad_inputs).is_err());
}

fn is_failed_with(s: &CycleState, want: &PipelineError) -> bool {
    matches!(s, CycleState::Failed { error } if error == want)
}

#[test]
fn full_cycle_climbs_the_ladder_back_to_idle() {
    let mut s = CycleState::Idle;
    s = step(s, &CycleEvent::Begin);
    assert!(matches!(s, CycleState::RequestingProof));
    s = step(s, &CycleEvent::RequestSent);
    assert!(matches!(s, CycleState::AwaitingProofResult));
    s = step(
        s,
        &CycleEvent::ProofResult {
            program: good_proof_pair(),
            domain: good_proof_pair(),
        },
    );
    match &s {
        CycleState::SubmittingAuthorization { artifact } => {
            assert_eq!(artifact.program_proof, vec![0, 1, 2, 3]);
            assert_eq!(artifact.program_inputs, vec![9, 8, 7]);
            assert_eq!(artifact.domain_proof, vec![0, 1, 2, 3]);
            assert_eq!(artifact.domain_inputs, vec![9, 8, 7]);
        }
        _ => panic!("a decoded artifact must move to submission"),
    }
    s = step(s, &CycleEvent::SubmitAccepted);
    assert!(matches!(s, CycleState::AwaitingInclusion));
    s = step(s, &CycleEvent::Included);
    assert!(matches!(s, CycleState::TickingExecutor));
    s = step(s, &CycleEvent::TickSubmitted);
    assert!(matches!(s, CycleState::AwaitingTickInclusion));
    s = step(s, &CycleEvent::TickIncluded);
    assert!(matches!(s, CycleState::Verifying));
    s = step(s, &CycleEvent::StateObserved { matches_expectation: true });
    assert!(matches!(s, CycleState::Idle));
}

#[test]
fn replay_rejection_never_reaches_the_executor_stages() {
    // SubmittingAuthorization receives the on-chain rejection: the
    // cycle fails terminally; ticking and verifying are never entered,
    // whatever events arrive afterwards.
    let mut s = CycleState::Idle;
    s = step(s, &CycleEvent::Begin);
    s = step(s, &CycleEvent::RequestSent);
    s = step(
        s,
        &CycleEvent::ProofResult {
            program: good_proof_pair(),
            domain: good_proof_pair(),
        },
    );
    s = step(s, &CycleEvent::SubmitRejected);
    assert!(is_failed_with(&s, &PipelineError::VerificationRejected));
    let later_events = [
        CycleEvent::SubmitAccepted,
        CycleEvent::Included,
        CycleEvent::TickSubmitted,
        CycleEvent::TickQueueEmpty,
        CycleEvent::TickIncluded,
        CycleEvent::StateObserved { matches_expectation: true },
        CycleEvent::Begin,
    ];
    for e in later_events {
        s = step(s, &e);
        assert!(
            !matches!(s, CycleState::TickingExecutor) && !matches!(s, CycleState::Verifying)
        );
        assert!(is_failed_with(&s, &PipelineError::VerificationRejected));
    }
}

#[test]
fn undecodable_artifact_aborts_the_cycle() {
    let s = step(
        CycleState::AwaitingProofResult,
        &CycleEvent::ProofResult {
            program: EncodedProof {
                proof: "***".to_string(),
                inputs: b64(&[1]),
            },
            domain: good_proof_pair(),
        },
    );
    assert!(is_failed_with(
        &s,
        &PipelineError::DecodeError { stage: Stage::AwaitingProofResult }
    ));
}

#[test]
fn sequence_contention_resubmits_the_same_artifact() {
    let s = step(
        CycleState::AwaitingProofResult,
        &CycleEvent::ProofResult {
            program: good_proof_pair(),
            domain: good_proof_pair(),
        },
    );
    let s = step(s, &CycleEvent::SequenceContention);
    match &s {
        CycleState::SubmittingAuthorization { artifact } => {
            assert_eq!(artifact.program_proof, vec![0, 1, 2, 3]);
        }
        _ => panic!("contention must keep the artifact for resubmission"),
    }
}

#[test]
fn empty_queue_tick_is_a_no_op_not_an_error() {
    let s = step(CycleState::TickingExecutor, &CycleEvent::TickQueueEmpty);
    assert!(matches!(s, CycleState::Verifying));
}

#[test]
fn inclusion_timeout_is_retryable_at_cycle_granularity() {
    let s = step(CycleState::AwaitingInclusion, &CycleEvent::InclusionTimeout);
    match &s {
        CycleState::Failed { error } => {
            assert_eq!(
                error,
                &PipelineError::TransientIOError { stage: Stage::AwaitingInclusion }
            );
            assert!(error.is_retryable());
        }
        _ => panic!("a timeout must fail the cycle"),
    }
}

#[test]
fn observed_mismatch_is_logged_not_failed() {
    let s = step(
        CycleState::Verifying,
        &CycleEvent::StateObserved { matches_expectation: false },
    );
    assert!(matches!(s, CycleState::Idle));
}

#[test]
fn error_taxonomy_fixes_the_retry_policy() {
    let transient = PipelineError::TransientIOError { stage: Stage::RequestingProof };
    let config = PipelineError::ConfigurationError { expected: 3, got: 2 };
    let decode_err = PipelineError::DecodeError { stage: Stage::AwaitingProofResult };
    assert!(transient.is_retryable());
    assert!(!config.is_retryable());
    assert!(!decode_err.is_retryable());
    assert!(!PipelineError::OverflowError.is_retryable());
    assert!(!PipelineError::VerificationRejected.is_retryable());
    assert!(decode_err.is_terminal_for_artifact());
    assert!(PipelineError::OverflowError.is_terminal_for_artifact());
    assert!(PipelineError::VerificationRejected.is_terminal_for_artifact());
    assert!(!transient.is_terminal_for_artifact());
    assert!(!config.is_terminal_for_artifact());
}

#[test]
fn entrypoint_accepts_store_and_rejects_the_rest() {
    let path = "artifacts/blob.json".to_string();
    match entrypoint(&"store".to_string(), &path) {
        Ok(EntryAction::StoreBlob { path: p }) => assert_eq!(p, path),
        _ => panic!("store must be accepted"),
    }
    match entrypoint(&"drop".to_string(), &path) {
        Err(PipelineError::DecodeError { stage: Stage::EntrypointDispatch }) => {}
        _ => panic!("unknown commands must be rejected as errors"),
    }
}

#[test]
fn each_state_asks_for_its_one_interaction() {
    assert!(matches!(
        next_action(&CycleState::Idle),
        CycleAction::WaitForSchedule
    ));
    assert!(matches!(
        next_action(&CycleState::RequestingProof),
        CycleAction::CallProver
    ));
    assert!(matches!(
        next_action(&CycleState::TickingExecutor),
        CycleAction::SubmitTick
    ));
    assert!(matches!(
        next_action(&CycleState::Failed { error: PipelineError::OverflowError }),
        CycleAction::ReportFailure
    ));
}
