use sov_aptosvm::block::{assemble_block, Transaction};
use sov_aptosvm::call::seal;
use sov_aptosvm::error::BridgeError;
use sov_aptosvm::hash::{HashValue, HASH_LENGTH};
use sov_aptosvm::index::TransactionIndex;
use sov_aptosvm::ledger::{copy_bytes, BlockInfo, EpochState, ExecutionResult, LedgerInfo};
use sov_aptosvm::trust::{ProofOutcome, TrustedState};

fn hash(byte: u8) -> HashValue {
    HashValue::new([byte; 32])
}

fn record(epoch: u64, version: u64, next: Option<EpochState>) -> LedgerInfo {
    LedgerInfo {
        commit_info: BlockInfo {
            epoch,
            round: 0,
            id: hash(1),
            executed_state_id: hash(2),
            version,
            timestamp: 77,
            next_epoch_state: next,
        },
        consensus_data_hash: HashValue::zero(),
    }
}

#[test]
fn hash_value_round_trips_through_bytes() {
    let mut bytes = [0u8; 32];
    for (i, b) in bytes.iter_mut().enumerate() {
        *b = i as u8;
    }
    let h = HashValue::new(bytes);
    assert_eq!(h.to_vec(), bytes.to_vec());
    assert_eq!(h.to_vec().len(), HASH_LENGTH);
    assert_eq!(HashValue::from_slice(&h.to_vec()), Some(h));
}

#[test]
fn hash_value_needs_exactly_32_bytes() {
    assert_eq!(HashValue::from_slice(&[]), None);
    assert_eq!(HashValue::from_slice(&[1u8; 31]), None);
    assert_eq!(HashValue::from_slice(&[1u8; 33]), None);
    assert_eq!(HashValue::from_slice(&[1u8; 32]), Some(hash(1)));
}

#[test]
fn zero_hash_is_all_zero() {
    assert_eq!(HashValue::zero().bytes, [0u8; 32]);
    assert_eq!(HashValue::zero().to_vec(), vec![0u8; 32]);
}

#[test]
fn copy_bytes_copies() {
    assert_eq!(copy_bytes(&vec![]), Vec::<u8>::new());
    assert_eq!(copy_bytes(&vec![1, 2, 3]), vec![1, 2, 3]);
}

#[test]
fn ledger_record_reads() {
    let within = record(3, 10, None);
    assert_eq!(within.epoch(), 3);
    assert_eq!(within.version(), 10);
    assert!(!within.ends_epoch());
    assert_eq!(within.next_block_epoch(), 3);

    let closing = record(3, 10, Some(EpochState { epoch: 4, verifier: vec![5] }));
    assert!(closing.ends_epoch());
    assert_eq!(closing.next_block_epoch(), 4);
    assert_eq!(closing.epoch(), 3);
    assert_eq!(closing.clone(), closing);
}

#[test]
fn index_records_and_overwrites() {
    let mut index = TransactionIndex::new();
    assert_eq!(index.len(), 0);
    assert_eq!(index.get(&"k1".to_string()), None);
    index.insert("k1".to_string(), vec![1]);
    index.insert("k2".to_string(), vec![2]);
    assert_eq!(index.len(), 2);
    assert_eq!(index.get(&"k1".to_string()), Some(vec![1]));
    assert_eq!(index.get(&"k2".to_string()), Some(vec![2]));
    index.insert("k1".to_string(), vec![9, 9]);
    assert_eq!(index.len(), 2);
    assert_eq!(index.get(&"k1".to_string()), Some(vec![9, 9]));
    assert_eq!(index.get(&"k2".to_string()), Some(vec![2]));
    assert!(index.contains_key(&"k2".to_string()));
    assert!(!index.contains_key(&"k3".to_string()));
    assert_eq!(index.keys(), vec!["k1".to_string(), "k2".to_string()]);
}

#[test]
fn index_insert_is_idempotent() {
    let mut once = TransactionIndex::new();
    once.insert("k".to_string(), vec![1, 2]);
    let mut twice = TransactionIndex::new();
    twice.insert("k".to_string(), vec![1, 2]);
    twice.insert("k".to_string(), vec![1, 2]);
    assert_eq!(once, twice);
    assert_eq!(twice.len(), 1);
}

#[test]
fn assembler_orders_the_block() {
    let mut index = TransactionIndex::new();
    let batch = vec![vec![1u8], vec![2u8], vec![3u8]];
    let digests = vec![Some("h1".to_string()), Some("h2".to_string()), Some("h3".to_string())];
    let block =
        assemble_block(&mut index, hash(1), hash(2), hash(3), 8, vec![4, 4], 99, batch, &digests)
            .unwrap();
    assert_eq!(block.id, hash(1));
    assert_eq!(block.parent_id, hash(3));
    assert_eq!(block.transactions.len(), 5);
    match &block.transactions[0] {
        Transaction::BlockMetadata(metadata) => {
            assert_eq!(metadata.id, hash(1));
            assert_eq!(metadata.epoch, 8);
            assert_eq!(metadata.round, 0);
            assert_eq!(metadata.proposer, vec![4, 4]);
            assert!(metadata.previous_block_votes.is_empty());
            assert!(metadata.failed_proposers.is_empty());
            assert_eq!(metadata.timestamp, 99);
        }
        other => panic!("block opens with {:?}", other),
    }
    assert_eq!(block.transactions[1], Transaction::Ordinary(vec![1]));
    assert_eq!(block.transactions[2], Transaction::Ordinary(vec![2]));
    assert_eq!(block.transactions[3], Transaction::Ordinary(vec![3]));
    assert_eq!(block.transactions[4], Transaction::StateCheckpoint(hash(2)));
    assert_eq!(index.len(), 3);
    assert_eq!(index.get(&"h2".to_string()), Some(vec![2]));
}

#[test]
fn assembler_stops_at_the_first_undecodable_transaction() {
    let mut index = TransactionIndex::new();
    index.insert("old".to_string(), vec![0]);
    let batch = vec![vec![1u8], vec![2u8], vec![3u8]];
    let digests = vec![Some("h1".to_string()), None, Some("h3".to_string())];
    let outcome =
        assemble_block(&mut index, hash(1), hash(2), hash(3), 8, vec![], 99, batch, &digests);
    assert_eq!(outcome, Err(BridgeError::DecodeError));
    assert_eq!(index.keys(), vec!["old".to_string(), "h1".to_string()]);

    let mut index = TransactionIndex::new();
    let digests = vec![None];
    let outcome =
        assemble_block(&mut index, hash(1), hash(2), hash(3), 8, vec![], 99, vec![vec![1]], &digests);
    assert_eq!(outcome, Err(BridgeError::DecodeError));
    assert_eq!(index.len(), 0);
}

#[test]
fn seal_builds_the_record_of_an_advancing_result() {
    let next = EpochState { epoch: 6, verifier: vec![1] };
    let result = ExecutionResult { root_hash: hash(5), version: 21, epoch_state: Some(next.clone()) };
    let sealed = seal(hash(4), 6, 1234, 20, Some(result));
    assert_eq!(
        sealed,
        Some(LedgerInfo {
            commit_info: BlockInfo {
                epoch: 6,
                round: 0,
                id: hash(4),
                executed_state_id: hash(5),
                version: 21,
                timestamp: 1234,
                next_epoch_state: Some(next),
            },
            consensus_data_hash: HashValue::zero(),
        })
    );
}

#[test]
fn seal_turns_down_what_does_not_advance() {
    let stale = ExecutionResult { root_hash: hash(5), version: 20, epoch_state: None };
    assert_eq!(seal(hash(4), 6, 1234, 20, Some(stale)), None);
    let backwards = ExecutionResult {
        root_hash: hash(5),
        version: 21,
        epoch_state: Some(EpochState { epoch: 5, verifier: vec![] }),
    };
    assert_eq!(seal(hash(4), 6, 1234, 20, Some(backwards)), None);
    assert_eq!(seal(hash(4), 6, 1234, 20, None), None);
    let top = ExecutionResult { root_hash: hash(5), version: u64::MAX, epoch_state: None };
    assert!(seal(hash(4), 6, 1234, u64::MAX - 1, Some(top)).is_some());
    let none_above = ExecutionResult { root_hash: hash(5), version: u64::MAX, epoch_state: None };
    assert_eq!(seal(hash(4), 6, 1234, u64::MAX, Some(none_above)), None);
}

#[test]
fn ratchet_takes_epoch_changes_forward_only() {
    let mut state = TrustedState { waypoint: "5:a".to_string(), version: 5 };
    assert_eq!(state.ratchet(ProofOutcome::NoChange), Ok(()));
    assert_eq!(state, TrustedState { waypoint: "5:a".to_string(), version: 5 });
    assert_eq!(state.ratchet(ProofOutcome::Rejected), Err(BridgeError::ProofVerificationError));
    assert_eq!(state, TrustedState { waypoint: "5:a".to_string(), version: 5 });
    let forward = ProofOutcome::EpochChange { waypoint: "8:b".to_string(), version: 8 };
    assert_eq!(state.ratchet(forward), Ok(()));
    assert_eq!(state, TrustedState { waypoint: "8:b".to_string(), version: 8 });
    let backward = ProofOutcome::EpochChange { waypoint: "7:c".to_string(), version: 7 };
    assert_eq!(state.ratchet(backward), Err(BridgeError::UnexpectedStateTransition));
    assert_eq!(state, TrustedState { waypoint: "8:b".to_string(), version: 8 });
}
