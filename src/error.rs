//! The error taxonomy of block insertion and canonicalization, with the
//! predicates that decide whether a failure is the block's fault, fatal, or
//! a transient condition.
use crate::primitives::{B256, BlockHash, BlockNumber, SealedBlock};
use vstd::prelude::*;

verus! {

/// A violation of the tree's own bookkeeping assumptions.
#[derive(Debug, Clone, Copy, PartialEq, Eq, Structural)]
pub enum BlockchainTreeError {
    /// The block number is at or below the last finalized block number.
    PendingBlockIsFinalized {
        /// The block number of the last finalized block.
        last_finalized: BlockNumber,
    },
    /// No side chain exists under this internal identifier.
    BlockSideChainIdConsistency {
        /// The internal identifier of the side chain.
        chain_id: u64,
    },
    /// A canonical chain header could not be found.
    CanonicalChain {
        /// The hash of the missing canonical header.
        block_hash: BlockHash,
    },
    /// A block number is absent from the expected chain.
    BlockNumberNotFoundInChain {
        /// The block number that could not be found.
        block_number: BlockNumber,
    },
    /// A block hash is absent from the expected chain.
    BlockHashNotFoundInChain {
        /// The block hash that could not be found.
        block_hash: BlockHash,
    },
    /// The block could not be buffered.
    BlockBufferingFailed {
        /// The hash of the block that failed to buffer.
        block_hash: BlockHash,
    },
    /// The parent of the genesis block was asked for.
    GenesisBlockHasNoParent,
}

/// A block that failed validation after (or while) being executed.
#[derive(Debug, Clone, Copy, PartialEq, Eq, Structural)]
pub enum BlockValidationError {
    /// The state root after execution differs from the header's.
    StateRoot { got: B256, expected: B256 },
    /// The senders of the block's transactions could not be recovered.
    SenderRecoveryError,
    /// The receipts root differs from the header's.
    ReceiptRootDiff { got: B256, expected: B256 },
    /// The gas used differs from the header's.
    BlockGasUsed { got: u64, expected: u64 },
    /// A transaction asks for more gas than the block has left.
    TransactionGasLimitMoreThanAvailableBlockGas {
        transaction_gas_limit: u64,
        block_available_gas: u64,
    },
    /// The block is from before the merge.
    BlockPreMerge { hash: BlockHash },
    /// The total difficulty of the block is missing.
    MissingTotalDifficulty { hash: BlockHash },
}

/// A failure of the storage layer.
#[derive(Debug, Clone, PartialEq, Eq)]
pub enum ProviderError {
    /// The underlying database failed.
    Database(String),
    /// The state root computed while persisting differs from the header's.
    StateRootMismatch { block_number: BlockNumber, got: B256, expected: B256 },
    /// The state root computed while unwinding differs from the header's.
    UnwindStateRootMismatch { block_number: BlockNumber, got: B256, expected: B256 },
    /// No header is stored under this number.
    HeaderNotFound(BlockNumber),
    /// No block is stored under this hash.
    BlockHashNotFound(BlockHash),
}

/// A failure while executing a block.
#[derive(Debug, Clone, PartialEq, Eq)]
pub enum BlockExecutionError {
    /// The block is invalid.
    Validation(BlockValidationError),
    /// The latest block could not be read.
    LatestBlock(ProviderError),
    /// Pruning failed.
    Pruning(String),
    /// Reverting the canonical chain failed.
    CanonicalRevert { inner: String },
    /// Committing to the canonical chain failed.
    CanonicalCommit { inner: String },
    /// An appended chain does not connect to the chain it extends.
    AppendChainDoesntConnect { chain_tip: BlockNumber, other_chain_fork: BlockNumber },
    /// Execution is not available in this configuration.
    UnavailableForTest,
    /// Any other failure of the executor.
    Other(String),
}

/// A violation of the consensus rules.
#[derive(Debug, Clone, PartialEq, Eq)]
pub enum ConsensusError {
    /// The header uses more gas than its limit.
    HeaderGasUsedExceedsGasLimit { gas_used: u64, gas_limit: u64 },
    /// The parent hash does not match the parent block.
    ParentHashMismatch { got: BlockHash, expected: BlockHash },
    /// The block number is not the parent's number plus one.
    ParentBlockNumberMismatch { parent_block_number: BlockNumber, block_number: BlockNumber },
    /// The timestamp is not after the parent's.
    TimestampIsInPast { parent_timestamp: u64, timestamp: u64 },
    /// The transactions root differs from the header's.
    BodyTransactionRootDiff { got: B256, expected: B256 },
    /// Any other rule.
    Other(String),
}

/// An error that is not otherwise modelled, such as a database failure.
#[derive(Debug, Clone, PartialEq, Eq)]
pub enum InternalError {
    Database(String),
    Provider(ProviderError),
    Network(String),
    Custom(String),
}

/// The node-wide error type whose variants reach block insertion.
#[derive(Debug, Clone, PartialEq, Eq)]
pub enum RethError {
    Execution(BlockExecutionError),
    Consensus(ConsensusError),
    Database(String),
    Provider(ProviderError),
    Network(String),
    Custom(String),
    Canonical(CanonicalError),
}

/// A failure while making a block canonical.
#[derive(Debug, Clone, PartialEq, Eq)]
pub enum CanonicalError {
    /// Validation failed.
    Validation(BlockValidationError),
    /// The tree's bookkeeping was violated.
    BlockchainTree(BlockchainTreeError),
    /// The storage layer failed.
    Provider(ProviderError),
    /// The store transaction that reverts blocks failed.
    CanonicalRevert(String),
    /// The store transaction that commits blocks failed.
    CanonicalCommit(String),
    /// A previous optimistic sync target was re-orged out.
    OptimisticTargetRevert(BlockNumber),
}

impl CanonicalError {
    pub open spec fn spec_is_fatal(&self) -> bool {
        self is CanonicalCommit || self is CanonicalRevert
    }

    /// Whether the store may be left inconsistent: true exactly for a failed
    /// commit or revert transaction.
    pub fn is_fatal(&self) -> (r: bool)
        ensures
            r == self.spec_is_fatal(),
    {
        matches!(self, CanonicalError::CanonicalCommit(_) | CanonicalError::CanonicalRevert(_))
    }

    /// Whether the error is a tree error saying that a block hash is not in
    /// the chain.
    pub fn is_block_hash_not_found(&self) -> (r: bool)
        ensures
            r == (self matches CanonicalError::BlockchainTree(
                BlockchainTreeError::BlockHashNotFoundInChain { .. },
            )),
    {
        matches!(
            self,
            CanonicalError::BlockchainTree(BlockchainTreeError::BlockHashNotFoundInChain { .. })
        )
    }

    /// The block number carried by an optimistic-target revert, if the error
    /// is one.
    pub fn optimistic_revert_block_number(&self) -> (r: Option<BlockNumber>)
        ensures
            r == (match self {
                CanonicalError::OptimisticTargetRevert(n) => Some(*n),
                _ => None,
            }),
    {
        match self {
            CanonicalError::OptimisticTargetRevert(block_number) => Some(*block_number),
            _ => None,
        }
    }
}

/// All the ways in which inserting a block can fail.
#[derive(Debug, Clone, PartialEq, Eq)]
pub enum InsertBlockErrorKind {
    /// The senders of the block's transactions could not be recovered.
    SenderRecovery,
    /// The block violates the consensus rules.
    Consensus(ConsensusError),
    /// Executing the block failed.
    Execution(BlockExecutionError),
    /// The block violates the tree's invariants.
    Tree(BlockchainTreeError),
    /// The storage layer failed.
    Provider(ProviderError),
    /// An internal error, such as a database failure.
    Internal(InternalError),
    /// Canonicalization failed.
    Canonical(CanonicalError),
    /// A raw tree error.
    BlockchainTree(BlockchainTreeError),
}

pub open spec fn spec_is_state_root_provider_error(e: &ProviderError) -> bool {
    e is StateRootMismatch || e is UnwindStateRootMismatch
}

impl InsertBlockErrorKind {
    /// Whether the block itself is at fault, so that it may be marked invalid.
    pub open spec fn spec_is_invalid_block(&self) -> bool {
        match self {
            InsertBlockErrorKind::SenderRecovery => true,
            InsertBlockErrorKind::Consensus(_) => true,
            InsertBlockErrorKind::Execution(e) => e is Validation,
            InsertBlockErrorKind::Tree(e) => e is PendingBlockIsFinalized,
            InsertBlockErrorKind::Canonical(e) => e is Validation,
            InsertBlockErrorKind::Provider(_) => false,
            InsertBlockErrorKind::Internal(_) => false,
            InsertBlockErrorKind::BlockchainTree(_) => false,
        }
    }

    /// Whether the failure is a state-root mismatch, at whichever layer it
    /// was detected.
    pub open spec fn spec_is_state_root_error(&self) -> bool {
        match self {
            InsertBlockErrorKind::Execution(e) => e matches BlockExecutionError::Validation(
                BlockValidationError::StateRoot { .. },
            ),
            InsertBlockErrorKind::Canonical(e) => match e {
                CanonicalError::Validation(v) => v is StateRoot,
                CanonicalError::Provider(p) => spec_is_state_root_provider_error(p),
                _ => false,
            },
            InsertBlockErrorKind::Provider(p) => spec_is_state_root_provider_error(p),
            _ => false,
        }
    }

    /// Whether the error is a tree error.
    pub fn is_tree_error(&self) -> (r: bool)
        ensures
            r == self is Tree,
    {
        matches!(self, InsertBlockErrorKind::Tree(_))
    }

    /// Whether the error is a consensus error.
    pub fn is_consensus_error(&self) -> (r: bool)
        ensures
            r == self is Consensus,
    {
        matches!(self, InsertBlockErrorKind::Consensus(_))
    }

    /// Whether the error is a state-root mismatch, checked in the execution,
    /// canonical and provider branches.
    pub fn is_state_root_error(&self) -> (r: bool)
        ensures
            r == self.spec_is_state_root_error(),
    {
        match self {
            InsertBlockErrorKind::Execution(err) => {
                matches!(
                    err,
                    BlockExecutionError::Validation(BlockValidationError::StateRoot { .. })
                )
            },
            InsertBlockErrorKind::Canonical(err) => {
                matches!(
                    err,
                    CanonicalError::Validation(BlockValidationError::StateRoot { .. })
                        | CanonicalError::Provider(ProviderError::StateRootMismatch { .. })
                        | CanonicalError::Provider(ProviderError::UnwindStateRootMismatch { .. })
                )
            },
            InsertBlockErrorKind::Provider(err) => {
                matches!(
                    err,
                    ProviderError::StateRootMismatch { .. }
                        | ProviderError::UnwindStateRootMismatch { .. }
                )
            },
            _ => false,
        }
    }

    /// Whether the block itself caused the error, so that it should be
    /// marked invalid. Every variant is decided explicitly.
    pub fn is_invalid_block(&self) -> (r: bool)
        ensures
            r == self.spec_is_invalid_block(),
    {
        match self {
            InsertBlockErrorKind::SenderRecovery | InsertBlockErrorKind::Consensus(_) => true,
            InsertBlockErrorKind::Execution(err) => {
                match err {
                    // caused by the block
                    BlockExecutionError::Validation(_) => true,
                    // internal failures, not the block's fault
                    BlockExecutionError::LatestBlock(_)
                    | BlockExecutionError::Pruning(_)
                    | BlockExecutionError::CanonicalRevert { .. }
                    | BlockExecutionError::CanonicalCommit { .. }
                    | BlockExecutionError::AppendChainDoesntConnect { .. }
                    | BlockExecutionError::UnavailableForTest => false,
                    BlockExecutionError::Other(_) => false,
                }
            },
            InsertBlockErrorKind::Tree(err) => {
                match err {
                    // the block's number is at or below the finalized number
                    BlockchainTreeError::PendingBlockIsFinalized { .. } => true,
                    BlockchainTreeError::BlockSideChainIdConsistency { .. }
                    | BlockchainTreeError::CanonicalChain { .. }
                    | BlockchainTreeError::BlockNumberNotFoundInChain { .. }
                    | BlockchainTreeError::BlockHashNotFoundInChain { .. }
                    | BlockchainTreeError::BlockBufferingFailed { .. }
                    | BlockchainTreeError::GenesisBlockHasNoParent => false,
                }
            },
            // storage and internal failures are not blamed on the block
            InsertBlockErrorKind::Provider(_) | InsertBlockErrorKind::Internal(_) => false,
            InsertBlockErrorKind::Canonical(err) => match err {
                CanonicalError::BlockchainTree(_)
                | CanonicalError::CanonicalCommit(_)
                | CanonicalError::CanonicalRevert(_)
                | CanonicalError::OptimisticTargetRevert(_) => false,
                CanonicalError::Validation(_) => true,
                CanonicalError::Provider(_) => false,
            },
            InsertBlockErrorKind::BlockchainTree(_) => false,
        }
    }

    /// Whether the error says that the block is from before the merge.
    pub fn is_block_pre_merge(&self) -> (r: bool)
        ensures
            r == (self matches InsertBlockErrorKind::Execution(
                BlockExecutionError::Validation(BlockValidationError::BlockPreMerge { .. }),
            )),
    {
        matches!(
            self,
            InsertBlockErrorKind::Execution(
                BlockExecutionError::Validation(BlockValidationError::BlockPreMerge { .. }),
            )
        )
    }

    /// Whether the error is an execution error.
    pub fn is_execution_error(&self) -> (r: bool)
        ensures
            r == self is Execution,
    {
        matches!(self, InsertBlockErrorKind::Execution(_))
    }

    /// Whether the error is an internal error.
    pub fn is_internal(&self) -> (r: bool)
        ensures
            r == self is Internal,
    {
        matches!(self, InsertBlockErrorKind::Internal(_))
    }

    /// The tree error, if the error is one.
    pub fn as_tree_error(&self) -> (r: Option<BlockchainTreeError>)
        ensures
            r == (match self {
                InsertBlockErrorKind::Tree(e) => Some(*e),
                _ => None,
            }),
    {
        match self {
            InsertBlockErrorKind::Tree(err) => Some(*err),
            _ => None,
        }
    }

    /// The consensus error, if the error is one.
    pub fn as_consensus_error(&self) -> (r: Option<&ConsensusError>)
        ensures
            r == (match self {
                InsertBlockErrorKind::Consensus(e) => Some(e),
                _ => None,
            }),
    {
        match self {
            InsertBlockErrorKind::Consensus(err) => Some(err),
            _ => None,
        }
    }

    /// The execution error, if the error is one.
    pub fn as_execution_error(&self) -> (r: Option<&BlockExecutionError>)
        ensures
            r == (match self {
                InsertBlockErrorKind::Execution(e) => Some(e),
                _ => None,
            }),
    {
        match self {
            InsertBlockErrorKind::Execution(err) => Some(err),
            _ => None,
        }
    }
}

/// How a node-wide error is classified when it stops a block insertion.
pub open spec fn spec_kind_of_reth_error(err: RethError) -> InsertBlockErrorKind {
    match err {
        RethError::Execution(e) => InsertBlockErrorKind::Execution(e),
        RethError::Consensus(e) => InsertBlockErrorKind::Consensus(e),
        RethError::Database(s) => InsertBlockErrorKind::Internal(InternalError::Database(s)),
        RethError::Provider(e) => InsertBlockErrorKind::Internal(InternalError::Provider(e)),
        RethError::Network(s) => InsertBlockErrorKind::Internal(InternalError::Network(s)),
        RethError::Custom(s) => InsertBlockErrorKind::Internal(InternalError::Custom(s)),
        RethError::Canonical(e) => InsertBlockErrorKind::Canonical(e),
    }
}

impl From<RethError> for InsertBlockErrorKind {
    fn from(err: RethError) -> (r: Self) {
        match err {
            RethError::Execution(e) => InsertBlockErrorKind::Execution(e),
            RethError::Consensus(e) => InsertBlockErrorKind::Consensus(e),
            RethError::Database(s) => InsertBlockErrorKind::Internal(InternalError::Database(s)),
            RethError::Provider(e) => InsertBlockErrorKind::Internal(InternalError::Provider(e)),
            RethError::Network(s) => InsertBlockErrorKind::Internal(InternalError::Network(s)),
            RethError::Custom(s) => InsertBlockErrorKind::Internal(InternalError::Custom(s)),
            RethError::Canonical(e) => InsertBlockErrorKind::Canonical(e),
        }
    }
}

impl vstd::std_specs::convert::FromSpecImpl<RethError> for InsertBlockErrorKind {
    open spec fn obeys_from_spec() -> bool {
        true
    }

    open spec fn from_spec(err: RethError) -> InsertBlockErrorKind {
        spec_kind_of_reth_error(err)
    }
}

/// A failed block insertion: the offending block, handed back to the caller,
/// together with what went wrong.
#[derive(Debug)]
pub struct InsertBlockError {
    block: SealedBlock,
    kind: InsertBlockErrorKind,
}

impl InsertBlockError {
    /// The block that failed to insert.
    pub closed spec fn spec_block(&self) -> SealedBlock {
        self.block
    }

    /// What went wrong.
    pub closed spec fn spec_kind(&self) -> InsertBlockErrorKind {
        self.kind
    }

    /// An error for `block` of the given kind.
    pub fn new(block: SealedBlock, kind: InsertBlockErrorKind) -> (r: Self)
        ensures
            r.spec_block() == block,
            r.spec_kind() == kind,
    {
        InsertBlockError { block, kind }
    }

    /// An error for `block` caused by a tree error.
    pub fn tree_error(error: BlockchainTreeError, block: SealedBlock) -> (r: Self)
        ensures
            r.spec_block() == block,
            r.spec_kind() == InsertBlockErrorKind::Tree(error),
    {
        Self::new(block, InsertBlockErrorKind::Tree(error))
    }

    /// An error for `block` caused by a consensus violation.
    pub fn consensus_error(error: ConsensusError, block: SealedBlock) -> (r: Self)
        ensures
            r.spec_block() == block,
            r.spec_kind() == InsertBlockErrorKind::Consensus(error),
    {
        Self::new(block, InsertBlockErrorKind::Consensus(error))
    }

    /// An error for `block` whose transaction senders could not be recovered.
    pub fn sender_recovery_error(block: SealedBlock) -> (r: Self)
        ensures
            r.spec_block() == block,
            r.spec_kind() == InsertBlockErrorKind::SenderRecovery,
    {
        Self::new(block, InsertBlockErrorKind::SenderRecovery)
    }

    /// An error for `block` caused by a failed execution.
    pub fn execution_error(error: BlockExecutionError, block: SealedBlock) -> (r: Self)
        ensures
            r.spec_block() == block,
            r.spec_kind() == InsertBlockErrorKind::Execution(error),
    {
        Self::new(block, InsertBlockErrorKind::Execution(error))
    }

    /// An error for `block` classified from a node-wide error.
    pub fn from_reth_error(error: RethError, block: SealedBlock) -> (r: Self)
        ensures
            r.spec_block() == block,
            r.spec_kind() == spec_kind_of_reth_error(error),
    {
        Self::new(block, InsertBlockErrorKind::from(error))
    }

    /// Consumes the error and hands back the block.
    pub fn into_block(self) -> (r: SealedBlock)
        ensures
            r == self.spec_block(),
    {
        self.block
    }

    /// What went wrong.
    pub fn kind(&self) -> (r: &InsertBlockErrorKind)
        ensures
            *r == self.spec_kind(),
    {
        &self.kind
    }

    /// The block that failed to insert.
    pub fn block(&self) -> (r: &SealedBlock)
        ensures
            *r == self.spec_block(),
    {
        &self.block
    }

    /// Consumes the error and hands back the block and the kind.
    pub fn split(self) -> (r: (SealedBlock, InsertBlockErrorKind))
        ensures
            r == (self.spec_block(), self.spec_kind()),
    {
        (self.block, self.kind)
    }
}

} // verus!
