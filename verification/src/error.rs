//! The ways in which a call can fail.

use vstd::prelude::*;

verus! {

/// Why a call failed. None of these is retried by the bridge.
#[derive(Clone, Copy, Debug, PartialEq, Eq, Structural)]
pub enum BridgeError {
    /// A transaction of the batch could not be decoded.
    DecodeError,
    /// The execution engine failed the block, or reported a result that
    /// does not move the ledger forward.
    EngineExecutionError,
    /// The execution engine did not commit the block.
    CommitError,
    /// The state proof did not verify against the trusted state.
    ProofVerificationError,
    /// The proof outcome is an epoch change that would move the trusted
    /// state backwards.
    UnexpectedStateTransition,
}

} // verus!
