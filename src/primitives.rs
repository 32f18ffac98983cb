//! Plain-value block data that the tree reads.
use vstd::prelude::*;

verus! {

/// Block number.
pub type BlockNumber = u64;

/// A 256-bit hash, held as two 128-bit halves (high half first).
#[derive(Debug, Clone, Copy, PartialEq, Eq, Structural, Hash, PartialOrd, Ord, Default)]
pub struct B256 {
    pub hi: u128,
    pub lo: u128,
}

/// Hash of a block.
pub type BlockHash = B256;

impl B256 {
    /// The all-zero hash.
    pub fn zero() -> (r: B256)
        ensures
            r.hi == 0 && r.lo == 0,
    {
        B256 { hi: 0, lo: 0 }
    }

    /// A hash whose low 64 bits are `v` and all other bits are zero.
    pub fn from_low_u64(v: u64) -> (r: B256)
        ensures
            r.hi == 0 && r.lo == v as u128,
    {
        B256 { hi: 0, lo: v as u128 }
    }
}

/// A 20-byte account address.
#[derive(Debug, Clone, Copy, PartialEq, Eq, Hash, PartialOrd, Ord, Default)]
pub struct Address(pub [u8; 20]);

/// A block number together with the block's hash.
#[derive(Debug, Clone, Copy, PartialEq, Eq, Structural, Hash)]
pub struct BlockNumHash {
    pub number: BlockNumber,
    pub hash: BlockHash,
}

/// The header fields of a block that the tree and its readers use.
#[derive(Debug, Clone, Copy, PartialEq, Eq, Hash)]
pub struct Header {
    pub parent_hash: BlockHash,
    pub beneficiary: Address,
    pub number: BlockNumber,
    pub state_root: B256,
    pub timestamp: u64,
    pub gas_limit: u64,
    pub gas_used: u64,
    pub difficulty: u128,
    pub base_fee_per_gas: Option<u64>,
    pub excess_blob_gas: Option<u64>,
    pub mix_hash: B256,
}

/// A block whose hash has been computed: its identity.
///
/// The body is summarised by the number of transactions and of ommer
/// headers it holds.
#[derive(Debug, Clone, Copy, PartialEq, Eq, Hash)]
pub struct SealedBlock {
    pub hash: BlockHash,
    pub header: Header,
    pub transaction_count: u64,
    pub ommer_count: u64,
}

impl SealedBlock {
    pub open spec fn spec_num_hash(&self) -> BlockNumHash {
        BlockNumHash { number: self.header.number, hash: self.hash }
    }

    /// The block's hash.
    pub fn hash(&self) -> (r: BlockHash)
        ensures
            r == self.hash,
    {
        self.hash
    }

    /// The block's number.
    pub fn number(&self) -> (r: BlockNumber)
        ensures
            r == self.header.number,
    {
        self.header.number
    }

    /// The hash of the block's parent.
    pub fn parent_hash(&self) -> (r: BlockHash)
        ensures
            r == self.header.parent_hash,
    {
        self.header.parent_hash
    }

    /// The block's number and hash.
    pub fn num_hash(&self) -> (r: BlockNumHash)
        ensures
            r == self.spec_num_hash(),
    {
        BlockNumHash { number: self.header.number, hash: self.hash }
    }
}

} // verus!
