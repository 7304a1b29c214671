use vstd::prelude::*;

verus! {

use crate::errors::PipelineError;
use crate::errors::Stage;

// The controller's entrypoint is a debug side channel, not on the
// proving path: it persists a caller-supplied blob under a named path.
// The I/O lives outside; the decision of what an invocation asks for
// is made here.

/// What an accepted entrypoint invocation asks for.
pub enum EntryAction {
    /// Persist the invocation's payload under the given path.
    StoreBlob { path: String },
}

/// Decides what an entrypoint invocation asks for.  The one command is
/// `store`, which names the path to persist under; every other command
/// is rejected as an error rather than aborting.
pub fn entrypoint(cmd: &String, path: &String) -> (r: Result<EntryAction, PipelineError>)
    ensures
        match r {
            Ok(a) => cmd@ == "store"@ && (a matches EntryAction::StoreBlob { path: p } && p@
                == path@),
            Err(e) => cmd@ != "store"@ && e == (PipelineError::DecodeError {
                stage: Stage::EntrypointDispatch,
            }),
        },
{
    let store: String = "store".to_owned();
    if *cmd == store {
        Ok(EntryAction::StoreBlob { path: path.clone() })
    } else {
        Err(PipelineError::DecodeError { stage: Stage::EntrypointDispatch })
    }
}

} // verus!
