//! The call handler: one call assembles a block, has it executed and
//! committed, follows the epoch and ratchets the trusted state.
//!
//! The bridge decides; its surroundings act. A call starts with a message
//! and yields an [`Action`]. The surroundings carry the action out and report
//! back with an [`Event`], which yields the next action, until the call is
//! completed or has failed.

use vstd::prelude::*;
use crate::block::{
    assemble_block, assembled, batch_view, decoded_prefix, digests_view, recorded, Block,
    BlockView,
};
use crate::error::BridgeError;
use crate::hash::{zero_bytes, HashValue};
use crate::index::TransactionIndex;
use crate::ledger::{
    copy_bytes, BlockInfo, BlockInfoView, ExecutionResult, ExecutionResultView, LedgerInfo,
    LedgerInfoView,
};
use crate::trust::{ratcheted, ProofOutcome, ProofOutcomeView, TrustedState, TrustedStateView};

verus! {

/// A batch of submitted transactions, each as the bytes it came in.
#[derive(Debug, PartialEq)]
pub struct CallMessage {
    pub serialized_txs: Vec<Vec<u8>>,
}

impl View for CallMessage {
    type V = Seq<Seq<u8>>;

    open spec fn view(&self) -> Seq<Seq<u8>> {
        batch_view(self.serialized_txs@)
    }
}

impl Clone for CallMessage {
    fn clone(&self) -> (c: Self)
        ensures
            c@ == self@,
    {
        let mut serialized_txs: Vec<Vec<u8>> = Vec::new();
        let mut i: usize = 0;
        while i < self.serialized_txs.len()
            invariant
                i <= self.serialized_txs.len(),
                serialized_txs@.len() == i,
                forall|j: int| 0 <= j < i ==> (#[trigger] serialized_txs@[j])@ == self.serialized_txs@[j]@,
            decreases self.serialized_txs.len() - i,
        {
            serialized_txs.push(copy_bytes(&self.serialized_txs[i]));
            i = i + 1;
        }
        let c = CallMessage { serialized_txs };
        assert(c@ =~= self@);
        c
    }
}

/// How calls are executed. Chosen once, when the bridge is made.
#[derive(Clone, Copy, Debug, PartialEq, Eq, Structural)]
pub enum ExecutionVariant {
    /// The full pipeline: assemble, execute, commit, follow the epoch,
    /// ratchet.
    ConsensusDriven,
    /// Only an execution handle is looked up; no block is built.
    Direct,
}

/// What the surroundings read for one call.
#[derive(Debug, PartialEq, Eq)]
pub struct CallContext {
    /// The wall clock, in seconds since the Unix epoch.
    pub timestamp: u64,
    /// Identity of the local validator.
    pub proposer: Vec<u8>,
    /// The latest committed ledger record.
    pub latest: LedgerInfo,
    /// A fresh random identifier for the block.
    pub block_id: HashValue,
    /// A fresh random identifier for the closing checkpoint.
    pub checkpoint_id: HashValue,
    /// For each transaction of the batch, in order: its rendered content
    /// hash, or `None` where its bytes did not decode.
    pub digests: Vec<Option<String>>,
}

/// Mathematical model of a [`CallContext`].
pub struct CallContextView {
    pub timestamp: u64,
    pub proposer: Seq<u8>,
    pub latest: LedgerInfoView,
    pub block_id: Seq<u8>,
    pub checkpoint_id: Seq<u8>,
    pub digests: Seq<Option<Seq<char>>>,
}

impl View for CallContext {
    type V = CallContextView;

    open spec fn view(&self) -> CallContextView {
        CallContextView {
            timestamp: self.timestamp,
            proposer: self.proposer@,
            latest: self.latest@,
            block_id: self.block_id@,
            checkpoint_id: self.checkpoint_id@,
            digests: digests_view(self.digests@),
        }
    }
}

/// Where a call stands.
#[derive(Debug, PartialEq, Eq)]
pub enum Phase {
    /// No call is under way.
    Idle,
    /// A batch came in; what is to be read for it is awaited.
    Observing { batch: Vec<Vec<u8>> },
    /// A block is assembled and waits for the read handle on the engine's
    /// store to be released.
    Assembled { block: Block, epoch: u64, timestamp: u64, observed_version: u64 },
    /// A block was handed out for execution.
    Executing { block_id: HashValue, epoch: u64, timestamp: u64, observed_version: u64 },
    /// A ledger record was handed out to be signed and committed.
    Committing { ledger_info: LedgerInfo },
    /// The committed record closed its epoch; the genesis identifier of the
    /// next epoch is awaited.
    DerivingGenesis,
    /// A state proof is being fetched and verified.
    Verifying,
    /// The trusted state moved; its new values are being written.
    Persisting,
}

/// Mathematical model of a [`Phase`].
pub enum PhaseView {
    Idle,
    Observing { batch: Seq<Seq<u8>> },
    Assembled { block: BlockView, epoch: u64, timestamp: u64, observed_version: u64 },
    Executing { block_id: Seq<u8>, epoch: u64, timestamp: u64, observed_version: u64 },
    Committing { ledger_info: LedgerInfoView },
    DerivingGenesis,
    Verifying,
    Persisting,
}

impl View for Phase {
    type V = PhaseView;

    open spec fn view(&self) -> PhaseView {
        match self {
            Phase::Idle => PhaseView::Idle,
            Phase::Observing { batch } => PhaseView::Observing { batch: batch_view(batch@) },
            Phase::Assembled { block, epoch, timestamp, observed_version } => PhaseView::Assembled {
                block: block@,
                epoch: *epoch,
                timestamp: *timestamp,
                observed_version: *observed_version,
            },
            Phase::Executing { block_id, epoch, timestamp, observed_version } => PhaseView::Executing {
                block_id: block_id@,
                epoch: *epoch,
                timestamp: *timestamp,
                observed_version: *observed_version,
            },
            Phase::Committing { ledger_info } => PhaseView::Committing { ledger_info: ledger_info@ },
            Phase::DerivingGenesis => PhaseView::DerivingGenesis,
            Phase::Verifying => PhaseView::Verifying,
            Phase::Persisting => PhaseView::Persisting,
        }
    }
}

/// What the surroundings report back.
#[derive(Debug, PartialEq, Eq)]
pub enum Event {
    /// What was read for the call.
    Observed(CallContext),
    /// The read handle on the engine's store is released.
    ReaderReleased,
    /// The engine executed the block, or failed to (`None`).
    Executed(Option<ExecutionResult>),
    /// The engine committed the block under the signed record, or did not.
    Committed(bool),
    /// The genesis block identifier of the next epoch, derived from the
    /// committed record.
    GenesisDerived(HashValue),
    /// The state proof was fetched and checked against the trusted state.
    ProofVerified(ProofOutcome),
    /// The waypoint and the known version are written.
    TrustedStatePersisted,
}

/// Mathematical model of an [`Event`].
pub enum EventView {
    Observed(CallContextView),
    ReaderReleased,
    Executed(Option<ExecutionResultView>),
    Committed(bool),
    GenesisDerived(Seq<u8>),
    ProofVerified(ProofOutcomeView),
    TrustedStatePersisted,
}

impl View for Event {
    type V = EventView;

    open spec fn view(&self) -> EventView {
        match self {
            Event::Observed(context) => EventView::Observed(context@),
            Event::ReaderReleased => EventView::ReaderReleased,
            Event::Executed(Some(result)) => EventView::Executed(Some(result@)),
            Event::Executed(None) => EventView::Executed(None),
            Event::Committed(done) => EventView::Committed(*done),
            Event::GenesisDerived(id) => EventView::GenesisDerived(id@),
            Event::ProofVerified(outcome) => EventView::ProofVerified(outcome@),
            Event::TrustedStatePersisted => EventView::TrustedStatePersisted,
        }
    }
}

/// What the surroundings are to do next.
#[derive(Debug, PartialEq, Eq)]
pub enum Action {
    /// Read what the call needs: the wall clock, the identity of the local
    /// validator, the latest committed ledger record, two fresh random
    /// identifiers, and for each transaction of the batch whether it decodes
    /// and, if so, its rendered content hash. Answer with
    /// [`Event::Observed`].
    Observe,
    /// Release the read handle on the engine's store: the engine needs the
    /// store to itself. Answer with [`Event::ReaderReleased`].
    ReleaseReader,
    /// Have the engine execute the block on top of its parent. Answer with
    /// [`Event::Executed`].
    Execute { block: Block },
    /// Sign the record as the local validator and have the engine commit the
    /// block it names under it. Answer with [`Event::Committed`].
    Commit { ledger_info: LedgerInfo },
    /// Derive the genesis block identifier of the epoch that the record
    /// opens. Answer with [`Event::GenesisDerived`].
    DeriveGenesis { ledger_info: LedgerInfo },
    /// Fetch a state proof for `known_version` and verify it against the
    /// trusted state made from `waypoint`. Answer with
    /// [`Event::ProofVerified`].
    VerifyProof { known_version: u64, waypoint: String },
    /// Write the waypoint and the known version, both. Nothing else ever
    /// asks for these two to be written. Answer with
    /// [`Event::TrustedStatePersisted`].
    PersistTrustedState { waypoint: String, version: u64 },
    /// Look up the execution handle and answer the caller; there is nothing
    /// else to do.
    LookUpHandle,
    /// The call went through.
    Completed,
    /// The call failed.
    Failed(BridgeError),
    /// The bridge was waiting for something else: nothing has changed.
    OutOfTurn,
}

/// Mathematical model of an [`Action`].
pub enum ActionView {
    Observe,
    ReleaseReader,
    Execute { block: BlockView },
    Commit { ledger_info: LedgerInfoView },
    DeriveGenesis { ledger_info: LedgerInfoView },
    VerifyProof { known_version: u64, waypoint: Seq<char> },
    PersistTrustedState { waypoint: Seq<char>, version: u64 },
    LookUpHandle,
    Completed,
    Failed(BridgeError),
    OutOfTurn,
}

impl View for Action {
    type V = ActionView;

    open spec fn view(&self) -> ActionView {
        match self {
            Action::Observe => ActionView::Observe,
            Action::ReleaseReader => ActionView::ReleaseReader,
            Action::Execute { block } => ActionView::Execute { block: block@ },
            Action::Commit { ledger_info } => ActionView::Commit { ledger_info: ledger_info@ },
            Action::DeriveGenesis { ledger_info } => ActionView::DeriveGenesis {
                ledger_info: ledger_info@,
            },
            Action::VerifyProof { known_version, waypoint } => ActionView::VerifyProof {
                known_version: *known_version,
                waypoint: waypoint@,
            },
            Action::PersistTrustedState { waypoint, version } => ActionView::PersistTrustedState {
                waypoint: waypoint@,
                version: *version,
            },
            Action::LookUpHandle => ActionView::LookUpHandle,
            Action::Completed => ActionView::Completed,
            Action::Failed(e) => ActionView::Failed(*e),
            Action::OutOfTurn => ActionView::OutOfTurn,
        }
    }
}

/// The state that the bridge owns: the transaction index, the genesis
/// anchor and the trusted state, and where the current call stands.
#[derive(Debug, PartialEq, Eq)]
pub struct Bridge {
    variant: ExecutionVariant,
    index: TransactionIndex,
    genesis_anchor: HashValue,
    trusted: TrustedState,
    phase: Phase,
}

/// Mathematical model of a [`Bridge`].
pub struct BridgeView {
    pub variant: ExecutionVariant,
    pub index: Map<Seq<char>, Seq<u8>>,
    pub genesis_anchor: Seq<u8>,
    pub trusted: TrustedStateView,
    pub phase: PhaseView,
}

impl View for Bridge {
    type V = BridgeView;

    closed spec fn view(&self) -> BridgeView {
        BridgeView {
            variant: self.variant,
            index: self.index@,
            genesis_anchor: self.genesis_anchor@,
            trusted: self.trusted@,
            phase: self.phase@,
        }
    }
}

/// Whether an execution result moves the ledger forward from what was
/// observed: past the observed version, and not into an earlier epoch.
pub open spec fn advances(observed_version: u64, epoch: u64, result: ExecutionResultView) -> bool {
    &&& result.version > observed_version
    &&& result.epoch_state matches Some(next) ==> next.epoch >= epoch
}

/// The ledger record for an executed block: round 0, the placeholder
/// consensus-data hash, everything else from the block and its result.
pub open spec fn sealed(
    block_id: Seq<u8>,
    epoch: u64,
    timestamp: u64,
    result: ExecutionResultView,
) -> LedgerInfoView {
    LedgerInfoView {
        commit_info: BlockInfoView {
            epoch,
            round: 0,
            id: block_id,
            executed_state_id: result.root_hash,
            version: result.version,
            timestamp,
            next_epoch_state: result.epoch_state,
        },
        consensus_data_hash: zero_bytes(),
    }
}

/// The request for a state proof, as the trusted state stands.
pub open spec fn proof_request(s: BridgeView) -> ActionView {
    ActionView::VerifyProof { known_version: s.trusted.version, waypoint: s.trusted.waypoint }
}

/// Start of a call in the consensus-driven variant: the batch is kept, and
/// what is to be read for it is asked for.
pub open spec fn consensus_call_spec(s: BridgeView, batch: Seq<Seq<u8>>) -> (
    BridgeView,
    ActionView,
) {
    if s.phase is Idle {
        (BridgeView { phase: PhaseView::Observing { batch }, ..s }, ActionView::Observe)
    } else {
        (s, ActionView::OutOfTurn)
    }
}

/// Start of a call in the direct variant.
pub open spec fn direct_call_spec(s: BridgeView) -> (BridgeView, ActionView) {
    if s.phase is Idle {
        (s, ActionView::LookUpHandle)
    } else {
        (s, ActionView::OutOfTurn)
    }
}

/// Start of a call, in the variant that the bridge was made with.
pub open spec fn call_spec(s: BridgeView, batch: Seq<Seq<u8>>) -> (BridgeView, ActionView) {
    match s.variant {
        ExecutionVariant::ConsensusDriven => consensus_call_spec(s, batch),
        ExecutionVariant::Direct => direct_call_spec(s),
    }
}

/// Assembly of the block for a batch, from what was read for it.
///
/// The transactions that decode are recorded in the index, up to the first
/// that does not. Where all decode, the block waits for the read handle to be
/// released; otherwise the call has failed.
pub open spec fn assembly_spec(s: BridgeView, batch: Seq<Seq<u8>>, context: CallContextView) -> (
    BridgeView,
    ActionView,
) {
    let decoded = decoded_prefix(context.digests, batch.len() as int);
    let index = recorded(s.index, batch, context.digests, decoded);
    if decoded == batch.len() {
        (
            BridgeView {
                index,
                phase: PhaseView::Assembled {
                    block: assembled(
                        context.block_id,
                        context.checkpoint_id,
                        s.genesis_anchor,
                        context.latest.next_block_epoch(),
                        context.proposer,
                        context.timestamp,
                        batch,
                    ),
                    epoch: context.latest.next_block_epoch(),
                    timestamp: context.timestamp,
                    observed_version: context.latest.version(),
                },
                ..s
            },
            ActionView::ReleaseReader,
        )
    } else {
        (
            BridgeView { index, phase: PhaseView::Idle, ..s },
            ActionView::Failed(BridgeError::DecodeError),
        )
    }
}

/// The state after `event`, and the action that answers it.
pub open spec fn step_spec(s: BridgeView, event: EventView) -> (BridgeView, ActionView) {
    match (s.phase, event) {
        (PhaseView::Observing { batch }, EventView::Observed(context)) => {
            assembly_spec(s, batch, context)
        },
        (
            PhaseView::Assembled { block, epoch, timestamp, observed_version },
            EventView::ReaderReleased,
        ) => {
            (
                BridgeView {
                    phase: PhaseView::Executing {
                        block_id: block.id,
                        epoch,
                        timestamp,
                        observed_version,
                    },
                    ..s
                },
                ActionView::Execute { block },
            )
        },
        (
            PhaseView::Executing { block_id, epoch, timestamp, observed_version },
            EventView::Executed(outcome),
        ) => {
            if outcome is Some && advances(observed_version, epoch, outcome->0) {
                let ledger_info = sealed(block_id, epoch, timestamp, outcome->0);
                (
                    BridgeView { phase: PhaseView::Committing { ledger_info }, ..s },
                    ActionView::Commit { ledger_info },
                )
            } else {
                (
                    BridgeView { phase: PhaseView::Idle, ..s },
                    ActionView::Failed(BridgeError::EngineExecutionError),
                )
            }
        },
        (PhaseView::Committing { ledger_info }, EventView::Committed(done)) => {
            if !done {
                (
                    BridgeView { phase: PhaseView::Idle, ..s },
                    ActionView::Failed(BridgeError::CommitError),
                )
            } else if ledger_info.ends_epoch() {
                (
                    BridgeView { phase: PhaseView::DerivingGenesis, ..s },
                    ActionView::DeriveGenesis { ledger_info },
                )
            } else {
                (BridgeView { phase: PhaseView::Verifying, ..s }, proof_request(s))
            }
        },
        (PhaseView::DerivingGenesis, EventView::GenesisDerived(id)) => {
            (BridgeView { genesis_anchor: id, phase: PhaseView::Verifying, ..s }, proof_request(s))
        },
        (PhaseView::Verifying, EventView::ProofVerified(outcome)) => {
            match ratcheted(s.trusted, outcome) {
                Ok(trusted) => if outcome is EpochChange {
                    (
                        BridgeView { trusted, phase: PhaseView::Persisting, ..s },
                        ActionView::PersistTrustedState {
                            waypoint: trusted.waypoint,
                            version: trusted.version,
                        },
                    )
                } else {
                    (BridgeView { phase: PhaseView::Idle, ..s }, ActionView::Completed)
                },
                Err(e) => (BridgeView { phase: PhaseView::Idle, ..s }, ActionView::Failed(e)),
            }
        },
        (PhaseView::Persisting, EventView::TrustedStatePersisted) => {
            (BridgeView { phase: PhaseView::Idle, ..s }, ActionView::Completed)
        },
        _ => (s, ActionView::OutOfTurn),
    }
}

impl Bridge {
    /// A bridge at rest, with an empty index.
    pub fn new(
        variant: ExecutionVariant,
        genesis_anchor: HashValue,
        waypoint: String,
        known_version: u64,
    ) -> (bridge: Bridge)
        ensures
            bridge@ == (BridgeView {
                variant,
                index: Map::empty(),
                genesis_anchor: genesis_anchor@,
                trusted: TrustedStateView { waypoint: waypoint@, version: known_version },
                phase: PhaseView::Idle,
            }),
    {
        Bridge {
            variant,
            index: TransactionIndex::new(),
            genesis_anchor,
            trusted: TrustedState { waypoint, version: known_version },
            phase: Phase::Idle,
        }
    }

    /// Starts a call in the variant that the bridge was made with.
    pub fn execute_call(&mut self, message: CallMessage) -> (action: Action)
        ensures
            (final(self)@, action@) == call_spec(old(self)@, message@),
    {
        match self.variant {
            ExecutionVariant::ConsensusDriven => self.execute_call_with_aptos_consensus(message),
            ExecutionVariant::Direct => self.execute_call_with_naked_vm(message),
        }
    }

    /// Starts a consensus-driven call: the bridge keeps the batch and asks
    /// for what is to be read for it.
    pub fn execute_call_with_aptos_consensus(&mut self, message: CallMessage) -> (action: Action)
        ensures
            (final(self)@, action@) == consensus_call_spec(old(self)@, message@),
    {
        match self.phase {
            Phase::Idle => {
                self.phase = Phase::Observing { batch: message.serialized_txs };
                Action::Observe
            },
            _ => Action::OutOfTurn,
        }
    }

    /// Starts a call in the direct variant: nothing is assembled, executed
    /// or recorded.
    pub fn execute_call_with_naked_vm(&mut self, message: CallMessage) -> (action: Action)
        ensures
            (final(self)@, action@) == direct_call_spec(old(self)@),
    {
        match self.phase {
            Phase::Idle => Action::LookUpHandle,
            _ => Action::OutOfTurn,
        }
    }

    /// Assembles the block for a batch, from what was read for it.
    ///
    /// Each transaction that decodes is recorded in the index, in
    /// submission order, up to the first that does not; that one fails the
    /// call with [`BridgeError::DecodeError`]. Otherwise the parent of the
    /// block is the genesis anchor, its epoch the one that follows the latest
    /// ledger record.
    fn assemble(&mut self, batch: Vec<Vec<u8>>, context: CallContext) -> (action: Action)
        ensures
            (final(self)@, action@) == assembly_spec(old(self)@, batch_view(batch@), context@),
    {
        let timestamp = context.timestamp;
        let epoch = context.latest.next_block_epoch();
        let observed_version = context.latest.version();
        let assembly = assemble_block(
            &mut self.index,
            context.block_id,
            context.checkpoint_id,
            self.genesis_anchor,
            epoch,
            context.proposer,
            timestamp,
            batch,
            &context.digests,
        );
        match assembly {
            Ok(block) => {
                self.phase = Phase::Assembled { block, epoch, timestamp, observed_version };
                Action::ReleaseReader
            },
            Err(e) => {
                self.phase = Phase::Idle;
                Action::Failed(e)
            },
        }
    }

    /// Takes the report on the last action and says what comes next.
    ///
    /// A report that does not answer the last action changes nothing and
    /// yields [`Action::OutOfTurn`].
    pub fn step(&mut self, event: Event) -> (action: Action)
        ensures
            (final(self)@, action@) == step_spec(old(self)@, event@),
    {
        let mut phase = Phase::Idle;
        std::mem::swap(&mut self.phase, &mut phase);
        match (phase, event) {
            (Phase::Observing { batch }, Event::Observed(context)) => {
                self.assemble(batch, context)
            },
            (
                Phase::Assembled { block, epoch, timestamp, observed_version },
                Event::ReaderReleased,
            ) => {
                self.phase = Phase::Executing {
                    block_id: block.id,
                    epoch,
                    timestamp,
                    observed_version,
                };
                Action::Execute { block }
            },
            (
                Phase::Executing { block_id, epoch, timestamp, observed_version },
                Event::Executed(outcome),
            ) => {
                match seal(block_id, epoch, timestamp, observed_version, outcome) {
                    Some(ledger_info) => {
                        let handed_out = ledger_info.clone();
                        self.phase = Phase::Committing { ledger_info };
                        Action::Commit { ledger_info: handed_out }
                    },
                    None => Action::Failed(BridgeError::EngineExecutionError),
                }
            },
            (Phase::Committing { ledger_info }, Event::Committed(done)) => {
                if !done {
                    Action::Failed(BridgeError::CommitError)
                } else if ledger_info.ends_epoch() {
                    self.phase = Phase::DerivingGenesis;
                    Action::DeriveGenesis { ledger_info }
                } else {
                    self.phase = Phase::Verifying;
                    self.request_proof()
                }
            },
            (Phase::DerivingGenesis, Event::GenesisDerived(id)) => {
                self.genesis_anchor = id;
                self.phase = Phase::Verifying;
                self.request_proof()
            },
            (Phase::Verifying, Event::ProofVerified(outcome)) => {
                let crosses_epoch = match &outcome {
                    ProofOutcome::EpochChange { .. } => true,
                    _ => false,
                };
                match self.trusted.ratchet(outcome) {
                    Ok(()) => {
                        if crosses_epoch {
                            self.phase = Phase::Persisting;
                            Action::PersistTrustedState {
                                waypoint: self.trusted.waypoint.clone(),
                                version: self.trusted.version,
                            }
                        } else {
                            Action::Completed
                        }
                    },
                    Err(e) => Action::Failed(e),
                }
            },
            (Phase::Persisting, Event::TrustedStatePersisted) => Action::Completed,
            (phase, _) => {
                self.phase = phase;
                Action::OutOfTurn
            },
        }
    }

    fn request_proof(&self) -> (action: Action)
        ensures
            action@ == proof_request(self@),
    {
        Action::VerifyProof {
            known_version: self.trusted.version,
            waypoint: self.trusted.waypoint.clone(),
        }
    }

    /// The variant that the bridge was made with.
    pub fn variant(&self) -> (v: ExecutionVariant)
        ensures
            v == self@.variant,
    {
        self.variant
    }

    /// The transaction index.
    pub fn index(&self) -> (index: &TransactionIndex)
        ensures
            index@ == self@.index,
    {
        &self.index
    }

    /// The parent of the next block.
    pub fn genesis_anchor(&self) -> (anchor: HashValue)
        ensures
            anchor@ == self@.genesis_anchor,
    {
        self.genesis_anchor
    }

    /// The persisted trust anchor.
    pub fn trusted_state(&self) -> (trusted: &TrustedState)
        ensures
            trusted@ == self@.trusted,
    {
        &self.trusted
    }

    /// Where the current call stands.
    pub fn phase(&self) -> (phase: &Phase)
        ensures
            phase@ == self@.phase,
    {
        &self.phase
    }
}

/// Builds the ledger record for an executed block, if the engine's answer
/// moves the ledger forward.
pub fn seal(
    block_id: HashValue,
    epoch: u64,
    timestamp: u64,
    observed_version: u64,
    outcome: Option<ExecutionResult>,
) -> (r: Option<LedgerInfo>)
    ensures
        r is Some <==> outcome is Some && advances(observed_version, epoch, (outcome->0)@),
        r is Some ==> (r->0)@ == sealed(block_id@, epoch, timestamp, (outcome->0)@),
{
    match outcome {
        Some(result) => {
            let in_epoch = match &result.epoch_state {
                Some(next) => next.epoch >= epoch,
                None => true,
            };
            if result.version > observed_version && in_epoch {
                Some(
                    LedgerInfo {
                        commit_info: BlockInfo {
                            epoch,
                            round: 0,
                            id: block_id,
                            executed_state_id: result.root_hash,
                            version: result.version,
                            timestamp,
                            next_epoch_state: result.epoch_state,
                        },
                        consensus_data_hash: HashValue::zero(),
                    },
                )
            } else {
                None
            }
        },
        None => None,
    }
}

} // verus!
