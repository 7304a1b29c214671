use vstd::prelude::*;

verus! {

use crate::errors::PipelineError;
use crate::errors::Stage;

// One coordinator instance owns exclusive write access to its signing
// account for a cycle's lifetime, so a cycle is a strictly ordered
// ladder of states; every network call happens between two states, and
// every decision about what happens next is made here, as a pure
// function of the state and the observed event.  Cycles are
// independent: nothing carries over but externally observed chain
// state.

/// Connection and contract parameters the coordinator needs.
pub struct NeutronStrategyConfig {
    /// gRPC endpoint of the node.
    pub grpc_url: String,
    /// gRPC port of the node.
    pub grpc_port: String,
    /// Chain identifier.
    pub chain_id: String,
    /// The authorizations module address.
    pub authorizations: String,
    /// The processor coupled with the authorizations module.
    pub processor: String,
}

/// One encoded proof pair as the proving service returns it: base64
/// proof bytes and base64 public inputs.
pub struct EncodedProof {
    /// The proof, base64-encoded.
    pub proof: String,
    /// The public inputs, base64-encoded.
    pub inputs: String,
}

/// A decoded proof artifact: the program pair and the domain pair.
/// Both must verify on-chain before the instruction executes, and the
/// artifact is single-use: a replay rejection is terminal for it.
pub struct ProofArtifact {
    pub program_proof: Vec<u8>,
    pub program_inputs: Vec<u8>,
    pub domain_proof: Vec<u8>,
    pub domain_inputs: Vec<u8>,
}

/// The mathematical shape of a proof artifact.
pub struct ProofArtifactV {
    pub program_proof: Seq<u8>,
    pub program_inputs: Seq<u8>,
    pub domain_proof: Seq<u8>,
    pub domain_inputs: Seq<u8>,
}

impl View for ProofArtifact {
    type V = ProofArtifactV;

    open spec fn view(&self) -> ProofArtifactV {
        ProofArtifactV {
            program_proof: self.program_proof@,
            program_inputs: self.program_inputs@,
            domain_proof: self.domain_proof@,
            domain_inputs: self.domain_inputs@,
        }
    }
}

/// What base64's standard-alphabet decoder yields on a string, if
/// anything: a pure function of the characters.  The wrapper below is
/// the only place the crate learns anything about it.
pub uninterp spec fn base64_decoded(s: Seq<char>) -> Option<Seq<u8>>;

/// Relies on `base64::engine::general_purpose::STANDARD`: decoding
/// with the standard alphabet is a function of the input characters
/// alone and fails exactly on strings that are not its base64.
#[verifier::external_body]
fn base64_decode(s: &String) -> (r: Option<Vec<u8>>)
    ensures
        match r {
            Some(v) => base64_decoded(s@) == Some(v@),
            None => base64_decoded(s@) is None,
        },
{
    base64::Engine::decode(&base64::engine::general_purpose::STANDARD, s.as_str()).ok()
}

/// Decodes one encoded proof pair into its proof bytes and public
/// input bytes.  Fails exactly when either field is not valid base64;
/// such an artifact is poisoned and the cycle is aborted, never
/// retried as-is.
pub fn decode(a: &EncodedProof) -> (r: Result<(Vec<u8>, Vec<u8>), PipelineError>)
    ensures
        match r {
            Ok(pi) => base64_decoded(a.proof@) == Some(pi.0@) && base64_decoded(a.inputs@)
                == Some(pi.1@),
            Err(e) => {
                &&& e == (PipelineError::DecodeError { stage: Stage::AwaitingProofResult })
                &&& (base64_decoded(a.proof@) is None || base64_decoded(a.inputs@) is None)
            },
        },
{
    let proof = match base64_decode(&a.proof) {
        Some(v) => v,
        None => {
            return Err(PipelineError::DecodeError { stage: Stage::AwaitingProofResult });
        },
    };
    let inputs = match base64_decode(&a.inputs) {
        Some(v) => v,
        None => {
            return Err(PipelineError::DecodeError { stage: Stage::AwaitingProofResult });
        },
    };
    Ok((proof, inputs))
}

/// The coordinator's position within one cycle.  A cycle climbs the
/// ladder from `Idle` through `Verifying` and back to `Idle`, or drops
/// to `Failed`, which is absorbing until the next cycle begins.
pub enum CycleState {
    /// Between cycles; waiting for the external scheduler.
    Idle,
    /// Building the request and calling the proving service.
    RequestingProof,
    /// Waiting for the proving service's artifact.
    AwaitingProofResult,
    /// Holding a decoded artifact and submitting it on-chain.
    SubmittingAuthorization { artifact: ProofArtifact },
    /// Polling for inclusion of the authorization transaction.
    AwaitingInclusion,
    /// Submitting the permissionless executor tick.
    TickingExecutor,
    /// Polling for inclusion of the tick transaction.
    AwaitingTickInclusion,
    /// Re-reading destination state for observability.
    Verifying,
    /// The cycle stopped; the error says why and fixes the retry
    /// policy.
    Failed { error: PipelineError },
}

/// The mathematical shape of a cycle state.
pub enum CycleStateV {
    Idle,
    RequestingProof,
    AwaitingProofResult,
    SubmittingAuthorization { artifact: ProofArtifactV },
    AwaitingInclusion,
    TickingExecutor,
    AwaitingTickInclusion,
    Verifying,
    Failed { error: PipelineError },
}

impl View for CycleState {
    type V = CycleStateV;

    open spec fn view(&self) -> CycleStateV {
        match self {
            CycleState::Idle => CycleStateV::Idle,
            CycleState::RequestingProof => CycleStateV::RequestingProof,
            CycleState::AwaitingProofResult => CycleStateV::AwaitingProofResult,
            CycleState::SubmittingAuthorization { artifact } => {
                CycleStateV::SubmittingAuthorization { artifact: artifact@ }
            },
            CycleState::AwaitingInclusion => CycleStateV::AwaitingInclusion,
            CycleState::TickingExecutor => CycleStateV::TickingExecutor,
            CycleState::AwaitingTickInclusion => CycleStateV::AwaitingTickInclusion,
            CycleState::Verifying => CycleStateV::Verifying,
            CycleState::Failed { error } => CycleStateV::Failed { error: *error },
        }
    }
}

/// An observation the outside world hands back to the coordinator: the
/// outcome of the one network interaction the current state asked for.
pub enum CycleEvent {
    /// The external scheduler starts a cycle.
    Begin,
    /// The proving request went out.
    RequestSent,
    /// The proving service failed; retryable only at the next cycle.
    ProvingFailed,
    /// The proving service returned its two encoded proof pairs.
    ProofResult { program: EncodedProof, domain: EncodedProof },
    /// The on-chain entrypoint accepted the submission.
    SubmitAccepted,
    /// The on-chain verifier refused a proof or the artifact was
    /// already consumed.
    SubmitRejected,
    /// The submission lost a signer-sequence race; re-fetch the
    /// sequence and resubmit the same artifact.
    SequenceContention,
    /// The submission failed in transport.
    SubmissionFailed,
    /// The authorization transaction was included.
    Included,
    /// Polling for inclusion timed out.
    InclusionTimeout,
    /// The tick transaction went out.
    TickSubmitted,
    /// The executor queue was empty: a no-op, not an error.
    TickQueueEmpty,
    /// The tick submission failed in transport.
    TickFailed,
    /// The tick transaction was included.
    TickIncluded,
    /// The destination state was re-read; a mismatch is logged, not a
    /// failure.
    StateObserved { matches_expectation: bool },
}

/// The transition function of the cycle, one observed event at a time.
/// Events that do not answer the current state change nothing.
pub open spec fn spec_step(s: CycleStateV, e: CycleEvent) -> CycleStateV {
    match s {
        CycleStateV::Idle => match e {
            CycleEvent::Begin => CycleStateV::RequestingProof,
            _ => s,
        },
        CycleStateV::RequestingProof => match e {
            CycleEvent::RequestSent => CycleStateV::AwaitingProofResult,
            CycleEvent::ProvingFailed => CycleStateV::Failed {
                error: PipelineError::TransientIOError { stage: Stage::RequestingProof },
            },
            _ => s,
        },
        CycleStateV::AwaitingProofResult => match e {
            CycleEvent::ProofResult { program, domain } => {
                match (
                    base64_decoded(program.proof@),
                    base64_decoded(program.inputs@),
                    base64_decoded(domain.proof@),
                    base64_decoded(domain.inputs@),
                ) {
                    (Some(pp), Some(pi), Some(dp), Some(di)) => {
                        CycleStateV::SubmittingAuthorization {
                            artifact: ProofArtifactV {
                                program_proof: pp,
                                program_inputs: pi,
                                domain_proof: dp,
                                domain_inputs: di,
                            },
                        }
                    },
                    _ => CycleStateV::Failed {
                        error: PipelineError::DecodeError { stage: Stage::AwaitingProofResult },
                    },
                }
            },
            CycleEvent::ProvingFailed => CycleStateV::Failed {
                error: PipelineError::TransientIOError { stage: Stage::AwaitingProofResult },
            },
            _ => s,
        },
        CycleStateV::SubmittingAuthorization { artifact } => match e {
            CycleEvent::SubmitAccepted => CycleStateV::AwaitingInclusion,
            CycleEvent::SubmitRejected => CycleStateV::Failed {
                error: PipelineError::VerificationRejected,
            },
            CycleEvent::SequenceContention => CycleStateV::SubmittingAuthorization { artifact },
            CycleEvent::SubmissionFailed => CycleStateV::Failed {
                error: PipelineError::TransientIOError { stage: Stage::SubmittingAuthorization },
            },
            _ => s,
        },
        CycleStateV::AwaitingInclusion => match e {
            CycleEvent::Included => CycleStateV::TickingExecutor,
            CycleEvent::InclusionTimeout => CycleStateV::Failed {
                error: PipelineError::TransientIOError { stage: Stage::AwaitingInclusion },
            },
            _ => s,
        },
        CycleStateV::TickingExecutor => match e {
            CycleEvent::TickSubmitted => CycleStateV::AwaitingTickInclusion,
            CycleEvent::TickQueueEmpty => CycleStateV::Verifying,
            CycleEvent::TickFailed => CycleStateV::Failed {
                error: PipelineError::TransientIOError { stage: Stage::TickingExecutor },
            },
            _ => s,
        },
        CycleStateV::AwaitingTickInclusion => match e {
            CycleEvent::TickIncluded => CycleStateV::Verifying,
            CycleEvent::InclusionTimeout => CycleStateV::Failed {
                error: PipelineError::TransientIOError { stage: Stage::AwaitingTickInclusion },
            },
            _ => s,
        },
        CycleStateV::Verifying => match e {
            CycleEvent::StateObserved { .. } => CycleStateV::Idle,
            _ => s,
        },
        CycleStateV::Failed { error } => CycleStateV::Failed { error },
    }
}

/// Advances the cycle by one observed event, exactly as [`spec_step`]
/// says.  The only computation on the way is decoding a returned
/// artifact; everything else is a decision.
pub fn step(s: CycleState, e: &CycleEvent) -> (r: CycleState)
    ensures
        r@ == spec_step(s@, *e),
{
    match s {
        CycleState::Idle => match e {
            CycleEvent::Begin => CycleState::RequestingProof,
            _ => CycleState::Idle,
        },
        CycleState::RequestingProof => match e {
            CycleEvent::RequestSent => CycleState::AwaitingProofResult,
            CycleEvent::ProvingFailed => CycleState::Failed {
                error: PipelineError::TransientIOError { stage: Stage::RequestingProof },
            },
            _ => CycleState::RequestingProof,
        },
        CycleState::AwaitingProofResult => match e {
            CycleEvent::ProofResult { program, domain } => {
                let (program_proof, program_inputs) = match decode(program) {
                    Ok(pi) => pi,
                    Err(err) => {
                        return CycleState::Failed { error: err };
                    },
                };
                let (domain_proof, domain_inputs) = match decode(domain) {
                    Ok(pi) => pi,
                    Err(err) => {
                        return CycleState::Failed { error: err };
                    },
                };
                CycleState::SubmittingAuthorization {
                    artifact: ProofArtifact {
                        program_proof,
                        program_inputs,
                        domain_proof,
                        domain_inputs,
                    },
                }
            },
            CycleEvent::ProvingFailed => CycleState::Failed {
                error: PipelineError::TransientIOError { stage: Stage::AwaitingProofResult },
            },
            _ => CycleState::AwaitingProofResult,
        },
        CycleState::SubmittingAuthorization { artifact } => match e {
            CycleEvent::SubmitAccepted => CycleState::AwaitingInclusion,
            CycleEvent::SubmitRejected => CycleState::Failed {
                error: PipelineError::VerificationRejected,
            },
            CycleEvent::SequenceContention => CycleState::SubmittingAuthorization { artifact },
            CycleEvent::SubmissionFailed => CycleState::Failed {
                error: PipelineError::TransientIOError { stage: Stage::SubmittingAuthorization },
            },
            _ => CycleState::SubmittingAuthorization { artifact },
        },
        CycleState::AwaitingInclusion => match e {
            CycleEvent::Included => CycleState::TickingExecutor,
            CycleEvent::InclusionTimeout => CycleState::Failed {
                error: PipelineError::TransientIOError { stage: Stage::AwaitingInclusion },
            },
            _ => CycleState::AwaitingInclusion,
        },
        CycleState::TickingExecutor => match e {
            CycleEvent::TickSubmitted => CycleState::AwaitingTickInclusion,
            CycleEvent::TickQueueEmpty => CycleState::Verifying,
            CycleEvent::TickFailed => CycleState::Failed {
                error: PipelineError::TransientIOError { stage: Stage::TickingExecutor },
            },
            _ => CycleState::TickingExecutor,
        },
        CycleState::AwaitingTickInclusion => match e {
            CycleEvent::TickIncluded => CycleState::Verifying,
            CycleEvent::InclusionTimeout => CycleState::Failed {
                error: PipelineError::TransientIOError { stage: Stage::AwaitingTickInclusion },
            },
            _ => CycleState::AwaitingTickInclusion,
        },
        CycleState::Verifying => match e {
            CycleEvent::StateObserved { .. } => CycleState::Idle,
            _ => CycleState::Verifying,
        },
        CycleState::Failed { error } => CycleState::Failed { error },
    }
}

/// What the driver must do in a state: the one network interaction
/// the state asks for, or nothing.  Cancellation is safe only here,
/// between two states, never inside a network call.
#[derive(Clone, Copy, Debug, PartialEq, Eq, Structural)]
pub enum CycleAction {
    /// Wait for the external scheduler to begin a cycle.
    WaitForSchedule,
    /// Build the request and call the proving service.
    CallProver,
    /// Wait for the proving service's artifact.
    AwaitArtifact,
    /// Submit the held artifact to the authorization entrypoint.
    PostAuthorization,
    /// Poll for inclusion of the authorization transaction.
    PollInclusion,
    /// Submit the permissionless tick.
    SubmitTick,
    /// Poll for inclusion of the tick transaction.
    PollTickInclusion,
    /// Re-read destination state for observability.
    ObserveDestination,
    /// Report the failure and end the cycle.
    ReportFailure,
}

/// The action each state asks for.
pub open spec fn spec_next_action(s: CycleStateV) -> CycleAction {
    match s {
        CycleStateV::Idle => CycleAction::WaitForSchedule,
        CycleStateV::RequestingProof => CycleAction::CallProver,
        CycleStateV::AwaitingProofResult => CycleAction::AwaitArtifact,
        CycleStateV::SubmittingAuthorization { .. } => CycleAction::PostAuthorization,
        CycleStateV::AwaitingInclusion => CycleAction::PollInclusion,
        CycleStateV::TickingExecutor => CycleAction::SubmitTick,
        CycleStateV::AwaitingTickInclusion => CycleAction::PollTickInclusion,
        CycleStateV::Verifying => CycleAction::ObserveDestination,
        CycleStateV::Failed { .. } => CycleAction::ReportFailure,
    }
}

/// Runtime counterpart of [`spec_next_action`].
pub fn next_action(s: &CycleState) -> (a: CycleAction)
    ensures
        a == spec_next_action(s@),
{
    match s {
        CycleState::Idle => CycleAction::WaitForSchedule,
        CycleState::RequestingProof => CycleAction::CallProver,
        CycleState::AwaitingProofResult => CycleAction::AwaitArtifact,
        CycleState::SubmittingAuthorization { .. } => CycleAction::PostAuthorization,
        CycleState::AwaitingInclusion => CycleAction::PollInclusion,
        CycleState::TickingExecutor => CycleAction::SubmitTick,
        CycleState::AwaitingTickInclusion => CycleAction::PollTickInclusion,
        CycleState::Verifying => CycleAction::ObserveDestination,
        CycleState::Failed { .. } => CycleAction::ReportFailure,
    }
}

/// The state after a whole sequence of observed events.
pub open spec fn run(s: CycleStateV, evs: Seq<CycleEvent>) -> CycleStateV
    decreases evs.len(),
{
    if evs.len() == 0 {
        s
    } else {
        run(spec_step(s, evs[0]), evs.drop_first())
    }
}

/// Failure is absorbing: once a cycle has failed, no sequence of later
/// events moves it anywhere else, and the error it failed with is
/// kept.
pub proof fn lemma_failed_absorbing(err: PipelineError, evs: Seq<CycleEvent>)
    ensures
        run(CycleStateV::Failed { error: err }, evs) == (CycleStateV::Failed { error: err }),
    decreases evs.len(),
{
    if evs.len() > 0 {
        lemma_failed_absorbing(err, evs.drop_first());
    }
}

/// A verification rejection during submission is terminal for the
/// artifact: the cycle drops to `Failed { VerificationRejected }`, and
/// whatever events follow, the executor-tick and verification stages
/// are never entered afterwards.
pub proof fn lemma_rejection_never_ticks(artifact: ProofArtifactV, evs: Seq<CycleEvent>)
    ensures
        spec_step(
            CycleStateV::SubmittingAuthorization { artifact },
            CycleEvent::SubmitRejected,
        ) == (CycleStateV::Failed { error: PipelineError::VerificationRejected }),
        forall|i: int|
            0 <= i <= evs.len() ==> {
                let later = run(
                    spec_step(
                        CycleStateV::SubmittingAuthorization { artifact },
                        CycleEvent::SubmitRejected,
                    ),
                    #[trigger] evs.take(i),
                );
                !(later is TickingExecutor) && !(later is Verifying)
            },
{
    assert forall|i: int| 0 <= i <= evs.len() implies {
        let later = run(
            spec_step(
                CycleStateV::SubmittingAuthorization { artifact },
                CycleEvent::SubmitRejected,
            ),
            #[trigger] evs.take(i),
        );
        !(later is TickingExecutor) && !(later is Verifying)
    } by {
        lemma_failed_absorbing(PipelineError::VerificationRejected, evs.take(i));
    }
}

} // verus!
