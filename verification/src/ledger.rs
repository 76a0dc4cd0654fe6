//! Ledger records: what the execution engine reports for a block and what
//! the bridge signs off on.

use vstd::prelude::*;
use crate::hash::HashValue;

verus! {

/// Copies a byte string.
pub fn copy_bytes(bytes: &Vec<u8>) -> (out: Vec<u8>)
    ensures
        out@ == bytes@,
{
    let mut out: Vec<u8> = Vec::new();
    let mut i: usize = 0;
    while i < bytes.len()
        invariant
            i <= bytes.len(),
            out@ == bytes@.subrange(0, i as int),
        decreases bytes.len() - i,
    {
        out.push(bytes[i]);
        i = i + 1;
    }
    assert(bytes@.subrange(0, bytes@.len() as int) == bytes@);
    out
}

/// The descriptor of the epoch that follows an epoch boundary. The
/// validator set travels through the bridge as opaque bytes.
#[derive(Debug, PartialEq, Eq)]
pub struct EpochState {
    pub epoch: u64,
    pub verifier: Vec<u8>,
}

/// Mathematical model of an [`EpochState`].
pub struct EpochStateView {
    pub epoch: u64,
    pub verifier: Seq<u8>,
}

impl View for EpochState {
    type V = EpochStateView;

    open spec fn view(&self) -> EpochStateView {
        EpochStateView { epoch: self.epoch, verifier: self.verifier@ }
    }
}

impl Clone for EpochState {
    fn clone(&self) -> (c: Self)
        ensures
            c@ == self@,
    {
        EpochState { epoch: self.epoch, verifier: copy_bytes(&self.verifier) }
    }
}

/// Model of an optional epoch-state descriptor.
pub open spec fn view_epoch_state(state: Option<EpochState>) -> Option<EpochStateView> {
    match state {
        Some(s) => Some(s@),
        None => None,
    }
}

/// Copies an optional epoch-state descriptor.
pub fn copy_epoch_state(state: &Option<EpochState>) -> (c: Option<EpochState>)
    ensures
        view_epoch_state(c) == view_epoch_state(*state),
{
    match state {
        Some(s) => Some(s.clone()),
        None => None,
    }
}

/// What the execution engine reports after executing a block.
#[derive(Debug, PartialEq, Eq)]
pub struct ExecutionResult {
    /// Root commitment of the state after the block.
    pub root_hash: HashValue,
    /// Ledger version after the block.
    pub version: u64,
    /// Present exactly when the block ends its epoch.
    pub epoch_state: Option<EpochState>,
}

/// Mathematical model of an [`ExecutionResult`].
pub struct ExecutionResultView {
    pub root_hash: Seq<u8>,
    pub version: u64,
    pub epoch_state: Option<EpochStateView>,
}

impl View for ExecutionResult {
    type V = ExecutionResultView;

    open spec fn view(&self) -> ExecutionResultView {
        ExecutionResultView {
            root_hash: self.root_hash@,
            version: self.version,
            epoch_state: view_epoch_state(self.epoch_state),
        }
    }
}

/// The commitment to one block: where it sits and what state it leaves.
#[derive(Debug, PartialEq, Eq)]
pub struct BlockInfo {
    pub epoch: u64,
    pub round: u64,
    pub id: HashValue,
    pub executed_state_id: HashValue,
    pub version: u64,
    pub timestamp: u64,
    pub next_epoch_state: Option<EpochState>,
}

/// Mathematical model of a [`BlockInfo`].
pub struct BlockInfoView {
    pub epoch: u64,
    pub round: u64,
    pub id: Seq<u8>,
    pub executed_state_id: Seq<u8>,
    pub version: u64,
    pub timestamp: u64,
    pub next_epoch_state: Option<EpochStateView>,
}

impl BlockInfoView {
    /// The record closes its epoch when it names the next one.
    pub open spec fn ends_epoch(self) -> bool {
        self.next_epoch_state is Some
    }

    /// The epoch of the block that follows this one.
    pub open spec fn next_block_epoch(self) -> u64 {
        match self.next_epoch_state {
            Some(s) => s.epoch,
            None => self.epoch,
        }
    }
}

impl View for BlockInfo {
    type V = BlockInfoView;

    open spec fn view(&self) -> BlockInfoView {
        BlockInfoView {
            epoch: self.epoch,
            round: self.round,
            id: self.id@,
            executed_state_id: self.executed_state_id@,
            version: self.version,
            timestamp: self.timestamp,
            next_epoch_state: view_epoch_state(self.next_epoch_state),
        }
    }
}

impl Clone for BlockInfo {
    fn clone(&self) -> (c: Self)
        ensures
            c@ == self@,
    {
        BlockInfo {
            epoch: self.epoch,
            round: self.round,
            id: self.id,
            executed_state_id: self.executed_state_id,
            version: self.version,
            timestamp: self.timestamp,
            next_epoch_state: copy_epoch_state(&self.next_epoch_state),
        }
    }
}

/// A ledger record: a block commitment and a consensus-data hash.
#[derive(Debug, PartialEq, Eq)]
pub struct LedgerInfo {
    pub commit_info: BlockInfo,
    pub consensus_data_hash: HashValue,
}

/// Mathematical model of a [`LedgerInfo`].
pub struct LedgerInfoView {
    pub commit_info: BlockInfoView,
    pub consensus_data_hash: Seq<u8>,
}

impl LedgerInfoView {
    pub open spec fn epoch(self) -> u64 {
        self.commit_info.epoch
    }

    pub open spec fn version(self) -> u64 {
        self.commit_info.version
    }

    pub open spec fn ends_epoch(self) -> bool {
        self.commit_info.ends_epoch()
    }

    pub open spec fn next_block_epoch(self) -> u64 {
        self.commit_info.next_block_epoch()
    }

    /// A record is sound when the epoch it names as the next is no earlier
    /// than its own.
    pub open spec fn well_formed(self) -> bool {
        self.next_block_epoch() >= self.epoch()
    }
}

impl View for LedgerInfo {
    type V = LedgerInfoView;

    open spec fn view(&self) -> LedgerInfoView {
        LedgerInfoView {
            commit_info: self.commit_info@,
            consensus_data_hash: self.consensus_data_hash@,
        }
    }
}

impl Clone for LedgerInfo {
    fn clone(&self) -> (c: Self)
        ensures
            c@ == self@,
    {
        LedgerInfo {
            commit_info: self.commit_info.clone(),
            consensus_data_hash: self.consensus_data_hash,
        }
    }
}

impl LedgerInfo {
    /// Epoch of the committed block.
    pub fn epoch(&self) -> (e: u64)
        ensures
            e == self@.epoch(),
    {
        self.commit_info.epoch
    }

    /// Ledger version after the committed block.
    pub fn version(&self) -> (v: u64)
        ensures
            v == self@.version(),
    {
        self.commit_info.version
    }

    /// Whether this record closes its epoch.
    pub fn ends_epoch(&self) -> (b: bool)
        ensures
            b == self@.ends_epoch(),
    {
        self.commit_info.next_epoch_state.is_some()
    }

    /// The epoch a block built on top of this record belongs to: the next
    /// epoch after a boundary, the same epoch otherwise.
    pub fn next_block_epoch(&self) -> (e: u64)
        ensures
            e == self@.next_block_epoch(),
    {
        match &self.commit_info.next_epoch_state {
            Some(s) => s.epoch,
            None => self.commit_info.epoch,
        }
    }
}

} // verus!
