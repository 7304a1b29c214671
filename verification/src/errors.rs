use vstd::prelude::*;

verus! {

/// The stage of the pipeline in which a failure arose.
///
/// Every error is reported together with its originating stage; nothing is
/// swallowed, and nothing is retried below full-cycle granularity.
#[derive(Clone, Copy, Debug, PartialEq, Eq, Structural)]
pub enum Stage {
    /// Assembling the witness bundle from a request and an inclusion proof.
    WitnessAssembly,
    /// The pure witness-to-message transform.
    ProvingTransform,
    /// Calling the external proving service.
    RequestingProof,
    /// Decoding the artifact the proving service returned.
    AwaitingProofResult,
    /// Submitting the authorization to the on-chain entrypoint.
    SubmittingAuthorization,
    /// Polling for inclusion of the authorization transaction.
    AwaitingInclusion,
    /// Submitting the permissionless executor tick.
    TickingExecutor,
    /// Polling for inclusion of the tick transaction.
    AwaitingTickInclusion,
    /// Re-reading destination state for observability.
    Verifying,
    /// Dispatching a command of the debug entrypoint.
    EntrypointDispatch,
}

/// The failure taxonomy of the pipeline.
///
/// Each variant fixes a retry policy: a configuration mismatch is fatal and
/// never retried; a transport failure is retried at the next full cycle; a
/// decode failure poisons the artifact it came from; an overflow is fatal
/// for its proof; an on-chain rejection is terminal for its artifact.
#[derive(Clone, Copy, Debug, PartialEq, Eq, Structural)]
pub enum PipelineError {
    /// A deployment-level mismatch, such as a witness bundle whose arity
    /// differs from the deployed variant's expectation.
    ConfigurationError { expected: usize, got: usize },
    /// A transport or provider failure on a network edge.
    TransientIOError { stage: Stage },
    /// Malformed bytes; the artifact they came from is discarded.
    DecodeError { stage: Stage },
    /// An extracted balance too wide for the 128-bit mint amount.
    OverflowError,
    /// The on-chain verifier refused a proof, or the artifact was already
    /// consumed; terminal for that artifact.
    VerificationRejected,
}

impl PipelineError {
    /// True exactly for the errors the external scheduler may retry, and
    /// only at the granularity of a whole new cycle.
    pub open spec fn spec_retryable(self) -> bool {
        self is TransientIOError
    }

    /// Runtime counterpart of [`Self::spec_retryable`].
    pub fn is_retryable(&self) -> (r: bool)
        ensures
            r == self.spec_retryable(),
    {
        matches!(self, PipelineError::TransientIOError { .. })
    }

    /// True exactly for the errors that poison the artifact they arose
    /// from: resubmitting the same bytes can never succeed.
    pub open spec fn spec_terminal_for_artifact(self) -> bool {
        self is DecodeError || self is OverflowError || self is VerificationRejected
    }

    /// Runtime counterpart of [`Self::spec_terminal_for_artifact`].
    pub fn is_terminal_for_artifact(&self) -> (r: bool)
        ensures
            r == self.spec_terminal_for_artifact(),
    {
        matches!(
            self,
            PipelineError::DecodeError { .. }
            | PipelineError::OverflowError
            | PipelineError::VerificationRejected
        )
    }
}

} // verus!
