use blockchain_tree::error::{
    BlockExecutionError, BlockValidationError, BlockchainTreeError, CanonicalError, ConsensusError,
    InsertBlockError, InsertBlockErrorKind, InternalError, ProviderError, RethError,
};
use blockchain_tree::primitives::{Address, B256, Header, SealedBlock};
use InsertBlockErrorKind as K;

fn h(v: u64) -> B256 {
    B256::from_low_u64(v)
}

fn block(hash: u64, parent: u64, number: u64) -> SealedBlock {
    SealedBlock {
        hash: h(hash),
        header: Header {
            parent_hash: h(parent),
            beneficiary: Address([7u8; 20]),
            number,
            state_root: B256::zero(),
            timestamp: number * 12,
            gas_limit: 30_000_000,
            gas_used: 0,
            difficulty: 0,
            base_fee_per_gas: Some(7),
            excess_blob_gas: None,
            mix_hash: B256::zero(),
        },
        transaction_count: 0,
        ommer_count: 0,
    }
}

fn all_kinds() -> Vec<(InsertBlockErrorKind, bool)> {
    let tree_errors = vec![
        (BlockchainTreeError::PendingBlockIsFinalized { last_finalized: 5 }, true),
        (BlockchainTreeError::BlockSideChainIdConsistency { chain_id: 1 }, false),
        (BlockchainTreeError::CanonicalChain { block_hash: h(1) }, false),
        (BlockchainTreeError::BlockNumberNotFoundInChain { block_number: 3 }, false),
        (BlockchainTreeError::BlockHashNotFoundInChain { block_hash: h(2) }, false),
        (BlockchainTreeError::BlockBufferingFailed { block_hash: h(3) }, false),
        (BlockchainTreeError::GenesisBlockHasNoParent, false),
    ];
    let validation = BlockValidationError::StateRoot { got: h(1), expected: h(2) };
    let mut v = vec![
        (K::SenderRecovery, true),
        (K::Consensus(ConsensusError::Other("bad".to_string())), true),
        (K::Consensus(ConsensusError::HeaderGasUsedExceedsGasLimit { gas_used: 2, gas_limit: 1 }), true),
        (K::Execution(BlockExecutionError::Validation(validation)), true),
        (K::Execution(BlockExecutionError::Validation(BlockValidationError::SenderRecoveryError)), true),
        (K::Execution(BlockExecutionError::LatestBlock(ProviderError::HeaderNotFound(1))), false),
        (K::Execution(BlockExecutionError::Pruning("p".to_string())), false),
        (K::Execution(BlockExecutionError::CanonicalRevert { inner: "r".to_string() }), false),
        (K::Execution(BlockExecutionError::CanonicalCommit { inner: "c".to_string() }), false),
        (K::Execution(BlockExecutionError::AppendChainDoesntConnect { chain_tip: 1, other_chain_fork: 2 }), false),
        (K::Execution(BlockExecutionError::UnavailableForTest), false),
        (K::Execution(BlockExecutionError::Other("o".to_string())), false),
        (K::Provider(ProviderError::Database("db".to_string())), false),
        (K::Provider(ProviderError::StateRootMismatch { block_number: 1, got: h(1), expected: h(2) }), false),
        (K::Internal(InternalError::Custom("x".to_string())), false),
        (K::Canonical(CanonicalError::Validation(validation)), true),
        (K::Canonical(CanonicalError::BlockchainTree(BlockchainTreeError::GenesisBlockHasNoParent)), false),
        (K::Canonical(CanonicalError::Provider(ProviderError::Database("db".to_string()))), false),
        (K::Canonical(CanonicalError::CanonicalRevert("r".to_string())), false),
        (K::Canonical(CanonicalError::CanonicalCommit("c".to_string())), false),
        (K::Canonical(CanonicalError::OptimisticTargetRevert(9)), false),
    ];
    for (e, invalid) in tree_errors {
        v.push((K::Tree(e), invalid));
        v.push((K::BlockchainTree(e), false));
    }
    v
}

#[test]
fn invalid_block_classification_table() {
    for (kind, invalid) in all_kinds() {
        assert_eq!(kind.is_invalid_block(), invalid, "{:?}", kind);
    }
}

#[test]
fn state_root_error_at_each_layer() {
    let sr = BlockValidationError::StateRoot { got: h(1), expected: h(2) };
    let mismatch = ProviderError::StateRootMismatch { block_number: 1, got: h(1), expected: h(2) };
    let unwind = ProviderError::UnwindStateRootMismatch { block_number: 1, got: h(1), expected: h(2) };
    assert!(K::Execution(BlockExecutionError::Validation(sr)).is_state_root_error());
    assert!(K::Canonical(CanonicalError::Validation(sr)).is_state_root_error());
    assert!(K::Canonical(CanonicalError::Provider(mismatch.clone())).is_state_root_error());
    assert!(K::Canonical(CanonicalError::Provider(unwind.clone())).is_state_root_error());
    assert!(K::Provider(mismatch).is_state_root_error());
    assert!(K::Provider(unwind).is_state_root_error());
    assert!(!K::Execution(BlockExecutionError::Validation(BlockValidationError::SenderRecoveryError)).is_state_root_error());
    assert!(!K::Provider(ProviderError::HeaderNotFound(3)).is_state_root_error());
    assert!(!K::SenderRecovery.is_state_root_error());
    assert!(!K::Canonical(CanonicalError::CanonicalCommit("c".to_string())).is_state_root_error());
}

#[test]
fn fatal_exactly_for_commit_and_revert() {
    let cases = vec![
        (CanonicalError::CanonicalCommit("c".to_string()), true),
        (CanonicalError::CanonicalRevert("r".to_string()), true),
        (CanonicalError::Validation(BlockValidationError::SenderRecoveryError), false),
        (CanonicalError::BlockchainTree(BlockchainTreeError::GenesisBlockHasNoParent), false),
        (CanonicalError::Provider(ProviderError::HeaderNotFound(1)), false),
        (CanonicalError::OptimisticTargetRevert(4), false),
    ];
    for (e, fatal) in cases {
        assert_eq!(e.is_fatal(), fatal);
    }
}

#[test]
fn canonical_error_accessors() {
    let not_found = CanonicalError::BlockchainTree(BlockchainTreeError::BlockHashNotFoundInChain { block_hash: h(4) });
    assert!(not_found.is_block_hash_not_found());
    assert!(!CanonicalError::BlockchainTree(BlockchainTreeError::CanonicalChain { block_hash: h(4) }).is_block_hash_not_found());
    assert_eq!(CanonicalError::OptimisticTargetRevert(42).optimistic_revert_block_number(), Some(42));
    assert_eq!(not_found.optimistic_revert_block_number(), None);
}

#[test]
fn membership_predicates_and_accessors() {
    let tree = K::Tree(BlockchainTreeError::GenesisBlockHasNoParent);
    assert!(tree.is_tree_error());
    assert_eq!(tree.as_tree_error(), Some(BlockchainTreeError::GenesisBlockHasNoParent));
    assert!(!K::BlockchainTree(BlockchainTreeError::GenesisBlockHasNoParent).is_tree_error());
    let consensus = K::Consensus(ConsensusError::Other("x".to_string()));
    assert!(consensus.is_consensus_error());
    assert_eq!(consensus.as_consensus_error(), Some(&ConsensusError::Other("x".to_string())));
    assert_eq!(consensus.as_execution_error(), None);
    let pre_merge = K::Execution(BlockExecutionError::Validation(BlockValidationError::BlockPreMerge { hash: h(1) }));
    assert!(pre_merge.is_block_pre_merge());
    assert!(pre_merge.is_execution_error());
    assert!(pre_merge.as_execution_error().is_some());
    assert!(!K::Execution(BlockExecutionError::UnavailableForTest).is_block_pre_merge());
    assert!(K::Internal(InternalError::Network("n".to_string())).is_internal());
    assert!(!K::SenderRecovery.is_internal());
}

#[test]
fn reth_error_conversion() {
    assert_eq!(K::from(RethError::Database("d".to_string())), K::Internal(InternalError::Database("d".to_string())));
    assert_eq!(K::from(RethError::Provider(ProviderError::HeaderNotFound(2))), K::Internal(InternalError::Provider(ProviderError::HeaderNotFound(2))));
    assert_eq!(K::from(RethError::Network("n".to_string())), K::Internal(InternalError::Network("n".to_string())));
    assert_eq!(K::from(RethError::Custom("c".to_string())), K::Internal(InternalError::Custom("c".to_string())));
    assert_eq!(K::from(RethError::Execution(BlockExecutionError::UnavailableForTest)), K::Execution(BlockExecutionError::UnavailableForTest));
    assert_eq!(K::from(RethError::Consensus(ConsensusError::Other("x".to_string()))), K::Consensus(ConsensusError::Other("x".to_string())));
    assert_eq!(K::from(RethError::Canonical(CanonicalError::OptimisticTargetRevert(1))), K::Canonical(CanonicalError::OptimisticTargetRevert(1)));
}

#[test]
fn insert_block_error_carries_the_block() {
    let b = block(10, 9, 3);
    let e = InsertBlockError::consensus_error(ConsensusError::Other("x".to_string()), b);
    assert_eq!(*e.block(), b);
    assert!(e.kind().is_consensus_error());
    let (blk, kind) = e.split();
    assert_eq!(blk, b);
    assert_eq!(kind, InsertBlockErrorKind::Consensus(ConsensusError::Other("x".to_string())));
    let e = InsertBlockError::sender_recovery_error(b);
    assert_eq!(*e.kind(), InsertBlockErrorKind::SenderRecovery);
    assert_eq!(e.into_block(), b);
    let e = InsertBlockError::tree_error(BlockchainTreeError::GenesisBlockHasNoParent, b);
    assert_eq!(e.kind().as_tree_error(), Some(BlockchainTreeError::GenesisBlockHasNoParent));
    let e = InsertBlockError::execution_error(BlockExecutionError::UnavailableForTest, b);
    assert!(e.kind().is_execution_error());
    let e = InsertBlockError::from_reth_error(RethError::Custom("c".to_string()), b);
    assert!(e.kind().is_internal());
    assert_eq!(e.into_block(), b);
}
