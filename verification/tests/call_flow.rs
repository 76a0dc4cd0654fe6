use sov_aptosvm::block::{Block, BlockMetadata, Transaction};
use sov_aptosvm::call::{
    Action, Bridge, CallContext, CallMessage, Event, ExecutionVariant, Phase,
};
use sov_aptosvm::error::BridgeError;
use sov_aptosvm::hash::HashValue;
use sov_aptosvm::ledger::{BlockInfo, EpochState, ExecutionResult, LedgerInfo};
use sov_aptosvm::trust::{ProofOutcome, TrustedState};

fn hash(byte: u8) -> HashValue {
    HashValue::new([byte; 32])
}

fn genesis_record() -> LedgerInfo {
    LedgerInfo {
        commit_info: BlockInfo {
            epoch: 3,
            round: 0,
            id: hash(1),
            executed_state_id: hash(2),
            version: 10,
            timestamp: 1_000,
            next_epoch_state: None,
        },
        consensus_data_hash: HashValue::zero(),
    }
}

fn bridge() -> Bridge {
    Bridge::new(ExecutionVariant::ConsensusDriven, hash(9), "10:abcd".to_string(), 10)
}

fn tx_a() -> Vec<u8> {
    b"{\"tx\":\"a\"}".to_vec()
}

fn tx_b() -> Vec<u8> {
    b"{\"tx\":\"b\"}".to_vec()
}

fn context(digests: Vec<Option<String>>) -> CallContext {
    CallContext {
        timestamp: 555,
        proposer: vec![7u8; 32],
        latest: genesis_record(),
        block_id: hash(0x11),
        checkpoint_id: hash(0x22),
        digests,
    }
}

fn both_valid() -> (CallMessage, CallContext) {
    (
        CallMessage { serialized_txs: vec![tx_a(), tx_b()] },
        context(vec![Some("aaaa".to_string()), Some("bbbb".to_string())]),
    )
}

/// Starts a call, reports what was read for it and, where a block was
/// assembled, reports the read handle released.
fn start(bridge: &mut Bridge, message: CallMessage, context: CallContext) -> Action {
    match bridge.execute_call(message) {
        Action::Observe => match bridge.step(Event::Observed(context)) {
            Action::ReleaseReader => bridge.step(Event::ReaderReleased),
            other => other,
        },
        other => other,
    }
}

fn result(version: u64, epoch_state: Option<EpochState>) -> ExecutionResult {
    ExecutionResult { root_hash: hash(0x33), version, epoch_state }
}

fn expected_record(version: u64, epoch_state: Option<EpochState>) -> LedgerInfo {
    LedgerInfo {
        commit_info: BlockInfo {
            epoch: 3,
            round: 0,
            id: hash(0x11),
            executed_state_id: hash(0x33),
            version,
            timestamp: 555,
            next_epoch_state: epoch_state,
        },
        consensus_data_hash: HashValue::zero(),
    }
}

#[test]
fn malformed_transaction_fails_the_batch_but_earlier_ones_stay_indexed() {
    let mut bridge = bridge();
    let message = CallMessage { serialized_txs: vec![tx_a(), b"\xff\xfe".to_vec()] };
    let action = start(&mut bridge, message, context(vec![Some("aaaa".to_string()), None]));
    assert_eq!(action, Action::Failed(BridgeError::DecodeError));
    assert_eq!(bridge.index().get(&"aaaa".to_string()), Some(tx_a()));
    assert_eq!(bridge.index().len(), 1);
    assert_eq!(*bridge.phase(), Phase::Idle);
    assert_eq!(bridge.genesis_anchor(), hash(9));
    assert_eq!(
        *bridge.trusted_state(),
        TrustedState { waypoint: "10:abcd".to_string(), version: 10 }
    );
    // No block is out: a report of an execution has nothing to answer.
    assert_eq!(bridge.step(Event::Executed(Some(result(12, None)))), Action::OutOfTurn);
}

#[test]
fn transactions_after_the_malformed_one_are_not_indexed() {
    let mut bridge = bridge();
    let message = CallMessage { serialized_txs: vec![tx_a(), b"junk".to_vec(), tx_b()] };
    let digests = vec![Some("aaaa".to_string()), None, Some("bbbb".to_string())];
    let action = start(&mut bridge, message, context(digests));
    assert_eq!(action, Action::Failed(BridgeError::DecodeError));
    assert!(bridge.index().contains_key(&"aaaa".to_string()));
    assert!(!bridge.index().contains_key(&"bbbb".to_string()));
}

#[test]
fn valid_batch_within_an_epoch_runs_to_completion() {
    let mut bridge = bridge();
    let (message, context) = both_valid();
    let action = start(&mut bridge, message, context);
    let expected_block = Block {
        id: hash(0x11),
        parent_id: hash(9),
        transactions: vec![
            Transaction::BlockMetadata(BlockMetadata {
                id: hash(0x11),
                epoch: 3,
                round: 0,
                proposer: vec![7u8; 32],
                previous_block_votes: vec![],
                failed_proposers: vec![],
                timestamp: 555,
            }),
            Transaction::Ordinary(tx_a()),
            Transaction::Ordinary(tx_b()),
            Transaction::StateCheckpoint(hash(0x22)),
        ],
    };
    assert_eq!(action, Action::Execute { block: expected_block });
    assert_eq!(bridge.index().get(&"aaaa".to_string()), Some(tx_a()));
    assert_eq!(bridge.index().get(&"bbbb".to_string()), Some(tx_b()));

    let action = bridge.step(Event::Executed(Some(result(14, None))));
    assert_eq!(action, Action::Commit { ledger_info: expected_record(14, None) });

    let action = bridge.step(Event::Committed(true));
    assert_eq!(
        action,
        Action::VerifyProof { known_version: 10, waypoint: "10:abcd".to_string() }
    );
    assert_eq!(bridge.genesis_anchor(), hash(9));

    let action = bridge.step(Event::ProofVerified(ProofOutcome::NoChange));
    assert_eq!(action, Action::Completed);
    assert_eq!(*bridge.phase(), Phase::Idle);
    assert_eq!(bridge.genesis_anchor(), hash(9));
    assert_eq!(
        *bridge.trusted_state(),
        TrustedState { waypoint: "10:abcd".to_string(), version: 10 }
    );
    assert_eq!(bridge.index().len(), 2);
}

#[test]
fn valid_batch_that_ends_the_epoch_moves_anchor_and_trust() {
    let mut bridge = bridge();
    let (message, context) = both_valid();
    let action = start(&mut bridge, message, context);
    assert!(matches!(action, Action::Execute { .. }));

    let next = EpochState { epoch: 4, verifier: vec![1, 2, 3] };
    let action = bridge.step(Event::Executed(Some(result(14, Some(next.clone())))));
    assert_eq!(action, Action::Commit { ledger_info: expected_record(14, Some(next.clone())) });

    let action = bridge.step(Event::Committed(true));
    assert_eq!(action, Action::DeriveGenesis { ledger_info: expected_record(14, Some(next)) });
    assert_eq!(*bridge.phase(), Phase::DerivingGenesis);
    assert_eq!(bridge.genesis_anchor(), hash(9));

    let action = bridge.step(Event::GenesisDerived(hash(0x44)));
    assert_eq!(
        action,
        Action::VerifyProof { known_version: 10, waypoint: "10:abcd".to_string() }
    );
    assert_eq!(bridge.genesis_anchor(), hash(0x44));

    let outcome = ProofOutcome::EpochChange { waypoint: "14:ef01".to_string(), version: 14 };
    assert_eq!(
        bridge.step(Event::ProofVerified(outcome)),
        Action::PersistTrustedState { waypoint: "14:ef01".to_string(), version: 14 }
    );
    assert_eq!(*bridge.phase(), Phase::Persisting);
    assert_eq!(bridge.step(Event::TrustedStatePersisted), Action::Completed);
    assert_eq!(*bridge.phase(), Phase::Idle);
    assert_eq!(
        *bridge.trusted_state(),
        TrustedState { waypoint: "14:ef01".to_string(), version: 14 }
    );
    assert_eq!(bridge.genesis_anchor(), hash(0x44));
    assert_eq!(bridge.index().len(), 2);

    // The next block is built on the new anchor.
    let message = CallMessage { serialized_txs: vec![] };
    let mut context = context_after_epoch();
    context.block_id = hash(0x55);
    context.timestamp = 600;
    match start(&mut bridge, message, context) {
        Action::Execute { block } => {
            assert_eq!(block.parent_id, hash(0x44));
            assert_eq!(block.id, hash(0x55));
            match &block.transactions[0] {
                Transaction::BlockMetadata(metadata) => {
                    assert_eq!(metadata.epoch, 4);
                    assert_eq!(metadata.timestamp, 600);
                }
                other => panic!("block opens with {:?}", other),
            }
        }
        other => panic!("expected a block, got {:?}", other),
    }
}

fn context_after_epoch() -> CallContext {
    let mut context = context(vec![]);
    context.latest = expected_record(14, Some(EpochState { epoch: 4, verifier: vec![1, 2, 3] }));
    context
}

#[test]
fn every_decoded_transaction_is_indexed_whatever_the_engine_does() {
    for outcome in [None, Some(result(5, None)), Some(result(14, None))] {
        let mut bridge = bridge();
        let (message, context) = both_valid();
        start(&mut bridge, message, context);
        bridge.step(Event::Executed(outcome));
        bridge.step(Event::Committed(false));
        assert!(bridge.index().contains_key(&"aaaa".to_string()));
        assert!(bridge.index().contains_key(&"bbbb".to_string()));
    }
}

#[test]
fn engine_failure_produces_no_ledger_record() {
    let mut bridge = bridge();
    let (message, context) = both_valid();
    start(&mut bridge, message, context);
    let action = bridge.step(Event::Executed(None));
    assert_eq!(action, Action::Failed(BridgeError::EngineExecutionError));
    assert_eq!(*bridge.phase(), Phase::Idle);
    assert_eq!(bridge.step(Event::Committed(true)), Action::OutOfTurn);
    assert_eq!(bridge.genesis_anchor(), hash(9));
}

#[test]
fn result_that_does_not_pass_the_observed_version_is_not_committed() {
    for version in [0u64, 9, 10] {
        let mut bridge = bridge();
        let (message, context) = both_valid();
        start(&mut bridge, message, context);
        let action = bridge.step(Event::Executed(Some(result(version, None))));
        assert_eq!(action, Action::Failed(BridgeError::EngineExecutionError));
    }
    let mut bridge = bridge();
    let (message, context) = both_valid();
    start(&mut bridge, message, context);
    match bridge.step(Event::Executed(Some(result(11, None)))) {
        Action::Commit { ledger_info } => assert!(ledger_info.version() > 10),
        other => panic!("expected a commit, got {:?}", other),
    }
}

#[test]
fn result_that_names_an_earlier_epoch_is_not_committed() {
    let mut bridge = bridge();
    let (message, context) = both_valid();
    start(&mut bridge, message, context);
    let earlier = EpochState { epoch: 2, verifier: vec![] };
    let action = bridge.step(Event::Executed(Some(result(14, Some(earlier)))));
    assert_eq!(action, Action::Failed(BridgeError::EngineExecutionError));
}

#[test]
fn commit_failure_advances_nothing() {
    let mut bridge = bridge();
    let (message, context) = both_valid();
    start(&mut bridge, message, context);
    let next = EpochState { epoch: 4, verifier: vec![] };
    bridge.step(Event::Executed(Some(result(14, Some(next)))));
    let action = bridge.step(Event::Committed(false));
    assert_eq!(action, Action::Failed(BridgeError::CommitError));
    assert_eq!(*bridge.phase(), Phase::Idle);
    assert_eq!(bridge.genesis_anchor(), hash(9));
    assert_eq!(
        *bridge.trusted_state(),
        TrustedState { waypoint: "10:abcd".to_string(), version: 10 }
    );
    assert_eq!(bridge.step(Event::GenesisDerived(hash(0x44))), Action::OutOfTurn);
    assert_eq!(bridge.genesis_anchor(), hash(9));
}

fn bridge_awaiting_proof() -> Bridge {
    let mut bridge = bridge();
    let (message, context) = both_valid();
    start(&mut bridge, message, context);
    bridge.step(Event::Executed(Some(result(14, None))));
    bridge.step(Event::Committed(true));
    assert_eq!(*bridge.phase(), Phase::Verifying);
    bridge
}

#[test]
fn rejected_proof_leaves_trust_unchanged() {
    let mut bridge = bridge_awaiting_proof();
    let action = bridge.step(Event::ProofVerified(ProofOutcome::Rejected));
    assert_eq!(action, Action::Failed(BridgeError::ProofVerificationError));
    assert_eq!(
        *bridge.trusted_state(),
        TrustedState { waypoint: "10:abcd".to_string(), version: 10 }
    );
    assert_eq!(*bridge.phase(), Phase::Idle);
}

#[test]
fn epoch_change_that_moves_backwards_is_unexpected() {
    let mut bridge = bridge_awaiting_proof();
    let outcome = ProofOutcome::EpochChange { waypoint: "9:0000".to_string(), version: 9 };
    let action = bridge.step(Event::ProofVerified(outcome));
    assert_eq!(action, Action::Failed(BridgeError::UnexpectedStateTransition));
    assert_eq!(
        *bridge.trusted_state(),
        TrustedState { waypoint: "10:abcd".to_string(), version: 10 }
    );
}

#[test]
fn epoch_change_at_the_known_version_is_taken() {
    let mut bridge = bridge_awaiting_proof();
    let outcome = ProofOutcome::EpochChange { waypoint: "10:ffff".to_string(), version: 10 };
    assert_eq!(
        bridge.step(Event::ProofVerified(outcome)),
        Action::PersistTrustedState { waypoint: "10:ffff".to_string(), version: 10 }
    );
    assert_eq!(bridge.step(Event::TrustedStatePersisted), Action::Completed);
    assert_eq!(
        *bridge.trusted_state(),
        TrustedState { waypoint: "10:ffff".to_string(), version: 10 }
    );
}

#[test]
fn trusted_version_never_decreases_over_successive_ratchets() {
    let mut bridge = bridge();
    let mut last = bridge.trusted_state().version;
    for (round, version) in [12u64, 11, 12, 30, 5, 30].into_iter().enumerate() {
        let mut context = context(vec![]);
        context.block_id = hash(round as u8);
        start(&mut bridge, CallMessage { serialized_txs: vec![] }, context);
        bridge.step(Event::Executed(Some(result(100 + round as u64, None))));
        bridge.step(Event::Committed(true));
        let outcome = ProofOutcome::EpochChange { waypoint: format!("{}:w", version), version };
        match bridge.step(Event::ProofVerified(outcome)) {
            Action::PersistTrustedState { waypoint, version: written } => {
                assert_eq!(written, version);
                assert_eq!(waypoint, format!("{}:w", version));
                assert_eq!(bridge.step(Event::TrustedStatePersisted), Action::Completed);
            }
            other => {
                assert_eq!(other, Action::Failed(BridgeError::UnexpectedStateTransition));
                assert!(version < last);
            }
        }
        assert_eq!(*bridge.phase(), Phase::Idle);
        assert!(bridge.trusted_state().version >= last);
        last = bridge.trusted_state().version;
    }
    assert_eq!(last, 30);
    assert_eq!(bridge.trusted_state().waypoint, "30:w");
}

#[test]
fn same_transaction_twice_makes_one_index_entry() {
    // In one batch.
    let mut bridge = bridge();
    let message = CallMessage { serialized_txs: vec![tx_a(), tx_a()] };
    let digests = vec![Some("aaaa".to_string()), Some("aaaa".to_string())];
    let action = start(&mut bridge, message, context(digests));
    assert!(matches!(action, Action::Execute { .. }));
    assert_eq!(bridge.index().len(), 1);
    assert_eq!(bridge.index().get(&"aaaa".to_string()), Some(tx_a()));

    // In two batches.
    bridge.step(Event::Executed(None));
    let message = CallMessage { serialized_txs: vec![tx_a()] };
    start(&mut bridge, message, context(vec![Some("aaaa".to_string())]));
    assert_eq!(bridge.index().len(), 1);
    assert_eq!(bridge.index().keys(), vec!["aaaa".to_string()]);
    assert_eq!(bridge.index().get(&"aaaa".to_string()), Some(tx_a()));
}

#[test]
fn later_bytes_win_under_a_shared_hash() {
    let mut bridge = bridge();
    let spaced = b"{ \"tx\": \"a\" }".to_vec();
    let message = CallMessage { serialized_txs: vec![tx_a(), spaced.clone()] };
    let digests = vec![Some("aaaa".to_string()), Some("aaaa".to_string())];
    start(&mut bridge, message, context(digests));
    assert_eq!(bridge.index().len(), 1);
    assert_eq!(bridge.index().get(&"aaaa".to_string()), Some(spaced));
}

#[test]
fn empty_batch_makes_a_block_of_metadata_and_checkpoint() {
    let mut bridge = bridge();
    let action = start(&mut bridge, CallMessage { serialized_txs: vec![] }, context(vec![]));
    match action {
        Action::Execute { block } => {
            assert_eq!(block.transactions.len(), 2);
            assert!(matches!(block.transactions[0], Transaction::BlockMetadata(_)));
            assert_eq!(block.transactions[1], Transaction::StateCheckpoint(hash(0x22)));
        }
        other => panic!("expected a block, got {:?}", other),
    }
    assert_eq!(bridge.index().len(), 0);
}

#[test]
fn transaction_without_a_digest_counts_as_undecodable() {
    let mut bridge = bridge();
    let message = CallMessage { serialized_txs: vec![tx_a(), tx_b()] };
    let action = start(&mut bridge, message, context(vec![Some("aaaa".to_string())]));
    assert_eq!(action, Action::Failed(BridgeError::DecodeError));
    assert_eq!(bridge.index().keys(), vec!["aaaa".to_string()]);
}

#[test]
fn call_during_a_call_is_out_of_turn() {
    let mut bridge = bridge();
    let (message, context) = both_valid();
    start(&mut bridge, message, context);
    let message = CallMessage { serialized_txs: vec![b"c".to_vec()] };
    let mut second = self::context(vec![Some("cccc".to_string())]);
    second.block_id = hash(0x66);
    assert_eq!(bridge.execute_call_with_aptos_consensus(message.clone()), Action::OutOfTurn);
    assert_eq!(bridge.step(Event::Observed(second)), Action::OutOfTurn);
    assert!(!bridge.index().contains_key(&"cccc".to_string()));
    assert_eq!(
        *bridge.phase(),
        Phase::Executing { block_id: hash(0x11), epoch: 3, timestamp: 555, observed_version: 10 }
    );
    assert_eq!(bridge.execute_call(message), Action::OutOfTurn);
}

#[test]
fn reports_that_answer_nothing_change_nothing() {
    let mut bridge = bridge();
    let unasked = context(vec![Some("aaaa".to_string())]);
    assert_eq!(bridge.step(Event::Observed(unasked)), Action::OutOfTurn);
    assert_eq!(bridge.step(Event::ReaderReleased), Action::OutOfTurn);
    assert_eq!(bridge.step(Event::Executed(None)), Action::OutOfTurn);
    assert_eq!(bridge.step(Event::Committed(true)), Action::OutOfTurn);
    assert_eq!(bridge.step(Event::GenesisDerived(hash(0x44))), Action::OutOfTurn);
    assert_eq!(bridge.step(Event::TrustedStatePersisted), Action::OutOfTurn);
    let outcome = ProofOutcome::EpochChange { waypoint: "99:x".to_string(), version: 99 };
    assert_eq!(bridge.step(Event::ProofVerified(outcome)), Action::OutOfTurn);
    assert_eq!(bridge, self::bridge());

    let (message, context) = both_valid();
    start(&mut bridge, message, context);
    assert_eq!(bridge.step(Event::ReaderReleased), Action::OutOfTurn);
    assert_eq!(bridge.step(Event::Committed(true)), Action::OutOfTurn);
    assert_eq!(bridge.step(Event::GenesisDerived(hash(0x44))), Action::OutOfTurn);
    assert_eq!(bridge.genesis_anchor(), hash(9));
    assert!(matches!(*bridge.phase(), Phase::Executing { .. }));
}

#[test]
fn direct_variant_only_looks_up_the_handle() {
    let mut bridge = Bridge::new(ExecutionVariant::Direct, hash(9), "10:abcd".to_string(), 10);
    assert_eq!(bridge.variant(), ExecutionVariant::Direct);
    let (message, context) = both_valid();
    assert_eq!(bridge.execute_call(message.clone()), Action::LookUpHandle);
    assert_eq!(bridge.index().len(), 0);
    assert_eq!(*bridge.phase(), Phase::Idle);
    assert_eq!(bridge.step(Event::Observed(context)), Action::OutOfTurn);
    assert_eq!(bridge.execute_call_with_naked_vm(message), Action::LookUpHandle);
    assert_eq!(
        bridge,
        Bridge::new(ExecutionVariant::Direct, hash(9), "10:abcd".to_string(), 10)
    );
}

#[test]
fn timestamp_read_for_the_call_stamps_block_and_record_alike() {
    let mut bridge = bridge();
    let (message, mut context) = both_valid();
    context.timestamp = 1_700_000_123;
    assert_eq!(bridge.execute_call(message), Action::Observe);
    assert_eq!(bridge.step(Event::Observed(context)), Action::ReleaseReader);
    match bridge.step(Event::ReaderReleased) {
        Action::Execute { block } => match &block.transactions[0] {
            Transaction::BlockMetadata(metadata) => assert_eq!(metadata.timestamp, 1_700_000_123),
            other => panic!("block opens with {:?}", other),
        },
        other => panic!("expected a block, got {:?}", other),
    }
    match bridge.step(Event::Executed(Some(result(14, None)))) {
        Action::Commit { ledger_info } => {
            assert_eq!(ledger_info.commit_info.timestamp, 1_700_000_123);
            assert_eq!(ledger_info.commit_info.round, 0);
            assert_eq!(ledger_info.consensus_data_hash, HashValue::new([0u8; 32]));
        }
        other => panic!("expected a commit, got {:?}", other),
    }
}

#[test]
fn no_change_and_failure_ask_for_no_write_of_the_trusted_state() {
    for outcome in [ProofOutcome::NoChange, ProofOutcome::Rejected] {
        let mut bridge = bridge_awaiting_proof();
        let action = bridge.step(Event::ProofVerified(outcome));
        assert!(!matches!(action, Action::PersistTrustedState { .. }));
        assert_eq!(*bridge.phase(), Phase::Idle);
        assert_eq!(bridge.step(Event::TrustedStatePersisted), Action::OutOfTurn);
    }
    let mut bridge = bridge_awaiting_proof();
    let backwards = ProofOutcome::EpochChange { waypoint: "9:0000".to_string(), version: 9 };
    let action = bridge.step(Event::ProofVerified(backwards));
    assert_eq!(action, Action::Failed(BridgeError::UnexpectedStateTransition));
    assert_eq!(bridge.step(Event::TrustedStatePersisted), Action::OutOfTurn);
}

#[test]
fn number_of_keys_grows_by_the_new_content_hashes() {
    let mut bridge = bridge();
    let message = CallMessage { serialized_txs: vec![tx_a()] };
    start(&mut bridge, message, context(vec![Some("aaaa".to_string())]));
    bridge.step(Event::Executed(None));
    assert_eq!(bridge.index().len(), 1);

    // Three transactions, two content hashes, one of them known already.
    let message = CallMessage { serialized_txs: vec![tx_b(), tx_a(), tx_b()] };
    let digests =
        vec![Some("bbbb".to_string()), Some("aaaa".to_string()), Some("bbbb".to_string())];
    start(&mut bridge, message, context(digests));
    assert_eq!(bridge.index().len(), 2);
    let mut keys = bridge.index().keys();
    keys.sort();
    assert_eq!(keys, vec!["aaaa".to_string(), "bbbb".to_string()]);
    assert_eq!(bridge.index().get(&"aaaa".to_string()), Some(tx_a()));
    assert_eq!(bridge.index().get(&"bbbb".to_string()), Some(tx_b()));
}

#[test]
fn block_is_handed_out_only_after_the_reader_is_released() {
    let mut bridge = bridge();
    let (message, context) = both_valid();
    assert_eq!(bridge.execute_call_with_aptos_consensus(message), Action::Observe);
    assert_eq!(*bridge.phase(), Phase::Observing { batch: vec![tx_a(), tx_b()] });
    // Nothing is recorded before the batch is decoded.
    assert_eq!(bridge.index().len(), 0);
    assert_eq!(bridge.step(Event::ReaderReleased), Action::OutOfTurn);
    assert_eq!(bridge.step(Event::Observed(context)), Action::ReleaseReader);
    assert_eq!(bridge.index().len(), 2);
    assert!(matches!(*bridge.phase(), Phase::Assembled { .. }));
    // The engine cannot have run yet: its report answers nothing.
    assert_eq!(bridge.step(Event::Executed(Some(result(14, None)))), Action::OutOfTurn);
    assert!(matches!(*bridge.phase(), Phase::Assembled { .. }));
    match bridge.step(Event::ReaderReleased) {
        Action::Execute { block } => {
            assert_eq!(block.id, hash(0x11));
            assert_eq!(block.transactions.len(), 4);
        }
        other => panic!("expected a block, got {:?}", other),
    }
    assert_eq!(
        *bridge.phase(),
        Phase::Executing { block_id: hash(0x11), epoch: 3, timestamp: 555, observed_version: 10 }
    );
}
