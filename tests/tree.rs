use blockchain_tree::error::{
    BlockExecutionError, BlockValidationError, BlockchainTreeError, CanonicalError, InsertBlockErrorKind,
};
use blockchain_tree::primitives::{Address, B256, BlockNumHash, Header, SealedBlock};
use blockchain_tree::tree::{BlockchainTree, CanonOutcome, InsertOutcome};

fn h(v: u64) -> B256 {
    B256::from_low_u64(v)
}

fn block(hash: u64, parent: u64, number: u64) -> SealedBlock {
    SealedBlock {
        hash: h(hash),
        header: Header {
            parent_hash: h(parent),
            beneficiary: Address([7u8; 20]),
            number,
            state_root: B256::zero(),
            timestamp: number * 12,
            gas_limit: 30_000_000,
            gas_used: 21_000,
            difficulty: 0,
            base_fee_per_gas: Some(7),
            excess_blob_gas: Some(0),
            mix_hash: B256::zero(),
        },
        transaction_count: 1,
        ommer_count: 0,
    }
}

fn nh(number: u64, hash: u64) -> BlockNumHash {
    BlockNumHash { number, hash: h(hash) }
}

/// A tree whose canonical tip is block 100 (hash 100), finalized at 98.
fn tree() -> BlockchainTree {
    BlockchainTree::new(nh(100, 100), 98, 4)
}

#[test]
fn unknown_parent_is_buffered_and_kept_out_of_side_chains() {
    let mut t = tree();
    let orphan = block(202, 201, 102);
    assert_eq!(t.insert_block(orphan, Ok(())).unwrap(), InsertOutcome::Buffered);
    assert!(t.is_buffered(&h(202)));
    assert_eq!(t.side_chain_of(&h(202)), None);
    assert!(t.side_chain_ids().is_empty());
    // another unrelated block does not bring it in
    assert_eq!(t.insert_block(block(301, 100, 101), Ok(())).unwrap(), InsertOutcome::Attached { chain_id: 0 });
    assert_eq!(t.side_chain_of(&h(202)), None);
    // its parent arrives: the buffered child is handed back for insertion
    assert_eq!(t.insert_block(block(201, 100, 101), Ok(())).unwrap(), InsertOutcome::Attached { chain_id: 1 });
    let ready = t.take_buffered_children(&h(201));
    assert_eq!(ready, vec![orphan]);
    assert!(!t.is_buffered(&h(202)));
    assert_eq!(t.insert_block(ready[0], Ok(())).unwrap(), InsertOutcome::Attached { chain_id: 1 });
    assert_eq!(t.side_chain_of(&h(202)), Some(1));
}

#[test]
fn linear_side_chain_round_trip() {
    let mut t = tree();
    let b1 = block(1, 100, 101);
    let b2 = block(2, 1, 102);
    let b3 = block(3, 2, 103);
    for b in [b1, b2, b3] {
        assert_eq!(t.insert_block(b, Ok(())).unwrap(), InsertOutcome::Attached { chain_id: 0 });
    }
    assert_eq!(t.side_chain_blocks(0), Some(vec![nh(101, 1), nh(102, 2), nh(103, 3)]));
    let out = t.make_canonical(h(3)).unwrap();
    assert_eq!(out, CanonOutcome::Committed { reverted: vec![], committed: vec![nh(101, 1), nh(102, 2), nh(103, 3)] });
    assert_eq!(t.canonical_chain(), vec![nh(100, 100), nh(101, 1), nh(102, 2), nh(103, 3)]);
    assert_eq!(t.canonical_tip(), nh(103, 3));
    assert_eq!(t.side_chain_blocks(0), None);
    assert!(t.side_chain_ids().is_empty());
    // the identifier is not handed out again
    assert_eq!(t.insert_block(block(4, 3, 104), Ok(())).unwrap(), InsertOutcome::Attached { chain_id: 1 });
}

#[test]
fn fork_of_canonical_tip() {
    let mut t = tree();
    let a = block(11, 100, 101);
    let a2 = block(12, 100, 101);
    assert_eq!(t.insert_block(a, Ok(())).unwrap(), InsertOutcome::Attached { chain_id: 0 });
    assert_eq!(t.insert_block(a2, Ok(())).unwrap(), InsertOutcome::Attached { chain_id: 1 });
    assert_eq!(t.side_chain_ids(), vec![0, 1]);
    let out = t.make_canonical(h(11)).unwrap();
    assert_eq!(out, CanonOutcome::Committed { reverted: vec![], committed: vec![nh(101, 11)] });
    assert_eq!(t.side_chain_of(&h(12)), None);
    let before = t.canonical_chain();
    let err = t.make_canonical(h(12)).unwrap_err();
    assert_eq!(err, CanonicalError::BlockchainTree(BlockchainTreeError::BlockHashNotFoundInChain { block_hash: h(12) }));
    assert!(err.is_block_hash_not_found());
    assert_eq!(t.canonical_chain(), before);
}

#[test]
fn make_canonical_twice_is_a_no_op() {
    let mut t = tree();
    t.insert_block(block(1, 100, 101), Ok(())).unwrap();
    t.make_canonical(h(1)).unwrap();
    let chain = t.canonical_chain();
    assert_eq!(t.make_canonical(h(1)).unwrap(), CanonOutcome::AlreadyCanonical);
    assert_eq!(t.make_canonical(h(1)).unwrap(), CanonOutcome::AlreadyCanonical);
    assert_eq!(t.canonical_chain(), chain);
    assert_eq!(t.make_canonical(h(100)).unwrap(), CanonOutcome::AlreadyCanonical);
}

#[test]
fn finalized_boundary_rejects_regardless_of_content() {
    let mut t = tree();
    for number in [0u64, 50, 98] {
        let b = block(500 + number, 100, number);
        let err = t.insert_block(b, Ok(())).unwrap_err();
        assert_eq!(*err.kind(), InsertBlockErrorKind::Tree(BlockchainTreeError::PendingBlockIsFinalized { last_finalized: 98 }));
        assert!(err.kind().is_invalid_block());
        assert_eq!(err.into_block(), b);
    }
    // an unknown parent does not save it either
    let err = t.insert_block(block(600, 599, 97), Ok(())).unwrap_err();
    assert!(err.kind().is_tree_error());
    assert_eq!(t.buffered_count(), 0);
    assert_eq!(t.finalized_block_number(), 98);
    // one above the finalized number is accepted
    assert!(t.insert_block(block(601, 100, 99), Ok(())).is_ok());
}

#[test]
fn failed_checks_return_the_block() {
    let mut t = tree();
    let b = block(1, 100, 101);
    let kind = InsertBlockErrorKind::Execution(BlockExecutionError::Validation(BlockValidationError::StateRoot { got: h(1), expected: h(2) }));
    let err = t.insert_block(b, Err(kind.clone())).unwrap_err();
    assert_eq!(*err.kind(), kind);
    assert!(err.kind().is_state_root_error());
    assert_eq!(*err.block(), b);
    assert_eq!(t.side_chain_of(&h(1)), None);
    // the same block inserts once the checks pass
    assert_eq!(t.insert_block(b, Ok(())).unwrap(), InsertOutcome::Attached { chain_id: 0 });
}

#[test]
fn known_blocks_are_already_seen() {
    let mut t = tree();
    assert_eq!(t.insert_block(block(100, 99, 100), Ok(())).unwrap(), InsertOutcome::AlreadySeen);
    t.insert_block(block(1, 100, 101), Ok(())).unwrap();
    assert_eq!(t.insert_block(block(1, 100, 101), Ok(())).unwrap(), InsertOutcome::AlreadySeen);
    t.insert_block(block(9, 8, 105), Ok(())).unwrap();
    assert_eq!(t.insert_block(block(9, 8, 105), Ok(())).unwrap(), InsertOutcome::AlreadySeen);
    assert_eq!(t.buffered_count(), 1);
}

#[test]
fn fork_inside_a_side_chain_starts_a_new_chain() {
    let mut t = tree();
    t.insert_block(block(1, 100, 101), Ok(())).unwrap();
    t.insert_block(block(2, 1, 102), Ok(())).unwrap();
    t.insert_block(block(3, 2, 103), Ok(())).unwrap();
    // a second child of block 2
    assert_eq!(t.insert_block(block(13, 2, 103), Ok(())).unwrap(), InsertOutcome::Attached { chain_id: 1 });
    assert_eq!(t.side_chain_blocks(1), Some(vec![nh(101, 1), nh(102, 2), nh(103, 13)]));
    assert_eq!(t.side_chain_blocks(0), Some(vec![nh(101, 1), nh(102, 2), nh(103, 3)]));
    let out = t.make_canonical(h(13)).unwrap();
    assert_eq!(out, CanonOutcome::Committed { reverted: vec![], committed: vec![nh(101, 1), nh(102, 2), nh(103, 13)] });
    assert!(t.is_canonical(&h(13)));
    assert!(!t.is_canonical(&h(3)));
}

#[test]
fn reorg_reverts_then_commits() {
    let mut t = tree();
    t.insert_block(block(1, 100, 101), Ok(())).unwrap();
    t.insert_block(block(2, 1, 102), Ok(())).unwrap();
    t.make_canonical(h(2)).unwrap();
    // a competing branch from the old tip
    t.insert_block(block(21, 100, 101), Ok(())).unwrap();
    t.insert_block(block(22, 21, 102), Ok(())).unwrap();
    t.insert_block(block(23, 22, 103), Ok(())).unwrap();
    let out = t.make_canonical(h(23)).unwrap();
    assert_eq!(out, CanonOutcome::Committed {
        reverted: vec![nh(101, 1), nh(102, 2)],
        committed: vec![nh(101, 21), nh(102, 22), nh(103, 23)],
    });
    assert_eq!(t.canonical_chain(), vec![nh(100, 100), nh(101, 21), nh(102, 22), nh(103, 23)]);
}

#[test]
fn canonicalizing_below_finalized_is_refused() {
    // canonical tip 100 but finalized 100: a fork from block 100 is fine,
    // a fork from an older block would revert finalized history
    let mut t = BlockchainTree::new(nh(100, 100), 99, 4);
    t.insert_block(block(1, 100, 101), Ok(())).unwrap();
    t.make_canonical(h(1)).unwrap();
    let mut t2 = BlockchainTree::new(nh(100, 100), 100, 4);
    assert!(t2.insert_block(block(5, 100, 101), Ok(())).is_ok());
    assert!(t2.make_canonical(h(5)).is_ok());
}

#[test]
fn unknown_target_is_not_found() {
    let mut t = tree();
    let err = t.make_canonical(h(77)).unwrap_err();
    assert_eq!(err, CanonicalError::BlockchainTree(BlockchainTreeError::BlockHashNotFoundInChain { block_hash: h(77) }));
    assert!(!err.is_fatal());
}

#[test]
fn full_buffer_evicts_oldest() {
    let mut t = BlockchainTree::new(nh(100, 100), 98, 2);
    t.insert_block(block(31, 30, 105), Ok(())).unwrap();
    t.insert_block(block(41, 40, 105), Ok(())).unwrap();
    t.insert_block(block(51, 50, 105), Ok(())).unwrap();
    assert_eq!(t.buffered_count(), 2);
    assert!(!t.is_buffered(&h(31)));
    assert!(t.is_buffered(&h(41)));
    assert!(t.is_buffered(&h(51)));
}

#[test]
fn take_children_keeps_other_blocks() {
    let mut t = tree();
    t.insert_block(block(31, 30, 105), Ok(())).unwrap();
    t.insert_block(block(32, 30, 105), Ok(())).unwrap();
    t.insert_block(block(41, 40, 105), Ok(())).unwrap();
    let kids = t.take_buffered_children(&h(30));
    assert_eq!(kids, vec![block(31, 30, 105), block(32, 30, 105)]);
    assert_eq!(t.buffered_count(), 1);
    assert!(t.is_buffered(&h(41)));
    assert!(t.take_buffered_children(&h(30)).is_empty());
}

#[test]
fn finalization_prunes_side_chains_and_buffer() {
    let mut t = BlockchainTree::new(nh(100, 100), 98, 8);
    t.insert_block(block(1, 100, 101), Ok(())).unwrap();
    t.insert_block(block(2, 1, 102), Ok(())).unwrap();
    t.insert_block(block(50, 49, 101), Ok(())).unwrap();
    t.insert_block(block(60, 59, 110), Ok(())).unwrap();
    t.set_finalized(101);
    assert_eq!(t.finalized_block_number(), 101);
    assert!(t.side_chain_ids().is_empty());
    assert!(!t.is_buffered(&h(50)));
    assert!(t.is_buffered(&h(60)));
    t.set_finalized(50);
    assert_eq!(t.finalized_block_number(), 101);
    assert!(t.is_buffered(&h(60)));
    let err = t.insert_block(block(7, 100, 101), Ok(())).unwrap_err();
    assert!(err.kind().is_invalid_block());
}

#[test]
fn finalization_keeps_chains_above_it() {
    let mut t = BlockchainTree::new(nh(100, 100), 90, 8);
    t.insert_block(block(1, 100, 101), Ok(())).unwrap();
    t.set_finalized(100);
    assert_eq!(t.side_chain_ids(), vec![0]);
    assert_eq!(t.make_canonical(h(1)).unwrap(), CanonOutcome::Committed { reverted: vec![], committed: vec![nh(101, 1)] });
}
