//! The trust ratchet: the light-client anchor that only moves forward.

use vstd::prelude::*;
use crate::error::BridgeError;

verus! {

/// The persisted trust anchor: a waypoint and the version it vouches for.
#[derive(Debug, PartialEq, Eq)]
pub struct TrustedState {
    pub waypoint: String,
    pub version: u64,
}

/// Mathematical model of a [`TrustedState`].
pub struct TrustedStateView {
    pub waypoint: Seq<char>,
    pub version: u64,
}

impl View for TrustedState {
    type V = TrustedStateView;

    open spec fn view(&self) -> TrustedStateView {
        TrustedStateView { waypoint: self.waypoint@, version: self.version }
    }
}

/// What verifying a state proof against the trusted state came to.
#[derive(Debug, PartialEq, Eq)]
pub enum ProofOutcome {
    /// The proof carries the trusted state across an epoch boundary.
    EpochChange { waypoint: String, version: u64 },
    /// The proof stays inside the trusted epoch: nothing to persist.
    NoChange,
    /// The proof does not verify.
    Rejected,
}

/// Mathematical model of a [`ProofOutcome`].
pub enum ProofOutcomeView {
    EpochChange { waypoint: Seq<char>, version: u64 },
    NoChange,
    Rejected,
}

impl View for ProofOutcome {
    type V = ProofOutcomeView;

    open spec fn view(&self) -> ProofOutcomeView {
        match self {
            ProofOutcome::EpochChange { waypoint, version } => ProofOutcomeView::EpochChange {
                waypoint: waypoint@,
                version: *version,
            },
            ProofOutcome::NoChange => ProofOutcomeView::NoChange,
            ProofOutcome::Rejected => ProofOutcomeView::Rejected,
        }
    }
}

/// The trusted state after a proof outcome, or the reason why it stays put.
///
/// An epoch change is taken over when it does not move the version
/// backwards; one that would is no clean epoch change.
pub open spec fn ratcheted(state: TrustedStateView, outcome: ProofOutcomeView) -> Result<
    TrustedStateView,
    BridgeError,
> {
    match outcome {
        ProofOutcomeView::EpochChange { waypoint, version } => if version >= state.version {
            Ok(TrustedStateView { waypoint, version })
        } else {
            Err(BridgeError::UnexpectedStateTransition)
        },
        ProofOutcomeView::NoChange => Ok(state),
        ProofOutcomeView::Rejected => Err(BridgeError::ProofVerificationError),
    }
}

impl TrustedState {
    /// Applies a proof outcome. On failure the state is left as it was.
    pub fn ratchet(&mut self, outcome: ProofOutcome) -> (r: Result<(), BridgeError>)
        ensures
            match ratcheted(old(self)@, outcome@) {
                Ok(next) => r is Ok && final(self)@ == next,
                Err(e) => r == Err::<(), BridgeError>(e) && final(self)@ == old(self)@,
            },
            final(self)@.version >= old(self)@.version,
    {
        match outcome {
            ProofOutcome::EpochChange { waypoint, version } => {
                if version >= self.version {
                    self.waypoint = waypoint;
                    self.version = version;
                    Ok(())
                } else {
                    Err(BridgeError::UnexpectedStateTransition)
                }
            },
            ProofOutcome::NoChange => Ok(()),
            ProofOutcome::Rejected => Err(BridgeError::ProofVerificationError),
        }
    }
}

} // verus!
