//! The block environment that a block is executed in, filled from its
//! header.
use crate::primitives::{Address, B256, Header};
use vstd::prelude::*;

verus! {

/// The largest excess blob gas for which the blob gas price is computed
/// without overflow.
pub const MAX_EXCESS_BLOB_GAS: u64 = 134217728;

/// The blob gas price for an excess blob gas (EIP-4844).
pub uninterp spec fn blob_gasprice_of(excess_blob_gas: u64) -> u128;

/// Relies on `revm_primitives::calc_blob_gasprice`: the EIP-4844 blob gas
/// price, a function of the excess blob gas alone, which is the minimum
/// price of 1 when there is no excess. Its Taylor-series arithmetic stays
/// within `u128` up to `MAX_EXCESS_BLOB_GAS`.
#[verifier::external_body]
fn blob_gasprice(excess_blob_gas: u64) -> (r: u128)
    requires
        excess_blob_gas <= MAX_EXCESS_BLOB_GAS,
    ensures
        r == blob_gasprice_of(excess_blob_gas),
        excess_blob_gas == 0 ==> r == 1,
{
    revm_primitives::calc_blob_gasprice(excess_blob_gas)
}

/// The excess blob gas of a block and the blob gas price it implies.
#[derive(Debug, Clone, Copy, PartialEq, Eq, Structural)]
pub struct BlobExcessGasAndPrice {
    pub excess_blob_gas: u64,
    pub blob_gasprice: u128,
}

/// The block-level inputs of execution.
#[derive(Debug, Clone, Copy, PartialEq, Eq, Default)]
pub struct BlockEnv {
    pub number: u64,
    pub coinbase: Address,
    pub timestamp: u64,
    pub gas_limit: u64,
    pub basefee: u64,
    pub difficulty: u128,
    /// The randomness beacon value, after the merge.
    pub prevrandao: Option<B256>,
    /// Present from Cancun on.
    pub blob_excess_gas_and_price: Option<BlobExcessGasAndPrice>,
}

/// `env` filled from `header`. After the merge the mix hash is the
/// randomness and the difficulty is zero; before it there is no randomness
/// and the header's difficulty is used. A missing base fee counts as zero.
/// The blob fields are set to `blob` when the header has an excess blob gas
/// and are left as they were when it has none.
pub open spec fn spec_filled_block_env(
    env: BlockEnv,
    header: Header,
    after_merge: bool,
    blob: Option<BlobExcessGasAndPrice>,
) -> BlockEnv {
    BlockEnv {
        number: header.number,
        coinbase: header.beneficiary,
        timestamp: header.timestamp,
        gas_limit: header.gas_limit,
        basefee: match header.base_fee_per_gas {
            Some(fee) => fee,
            None => 0,
        },
        difficulty: if after_merge {
            0
        } else {
            header.difficulty
        },
        prevrandao: if after_merge {
            Some(header.mix_hash)
        } else {
            None
        },
        blob_excess_gas_and_price: match header.excess_blob_gas {
            Some(_) => blob,
            None => env.blob_excess_gas_and_price,
        },
    }
}

/// The blob fields for a header, given the blob gas price of its excess.
pub open spec fn spec_blob_fields(header: Header, blob_gasprice: u128) -> Option<
    BlobExcessGasAndPrice,
> {
    match header.excess_blob_gas {
        Some(e) => Some(BlobExcessGasAndPrice { excess_blob_gas: e, blob_gasprice }),
        None => None,
    }
}

/// Fills `block_env` from `header`, with `blob_gasprice` as the price of
/// the header's excess blob gas, if it has one.
pub fn fill_block_env_with_blob_gasprice(
    block_env: &mut BlockEnv,
    header: &Header,
    after_merge: bool,
    blob_gasprice: u128,
)
    ensures
        *final(block_env) == spec_filled_block_env(
            *old(block_env),
            *header,
            after_merge,
            spec_blob_fields(*header, blob_gasprice),
        ),
{
    block_env.number = header.number;
    block_env.coinbase = header.beneficiary;
    block_env.timestamp = header.timestamp;
    if after_merge {
        block_env.prevrandao = Some(header.mix_hash);
        block_env.difficulty = 0;
    } else {
        block_env.difficulty = header.difficulty;
        block_env.prevrandao = None;
    }
    block_env.basefee = match header.base_fee_per_gas {
        Some(fee) => fee,
        None => 0,
    };
    block_env.gas_limit = header.gas_limit;
    if let Some(excess_blob_gas) = header.excess_blob_gas {
        block_env.blob_excess_gas_and_price = Some(
            BlobExcessGasAndPrice { excess_blob_gas, blob_gasprice },
        );
    }
}

/// Fills `block_env` from `header`; from Cancun on (the header has an
/// excess blob gas) the blob gas price is computed from it.
pub fn fill_block_env(block_env: &mut BlockEnv, header: &Header, after_merge: bool)
    requires
        match header.excess_blob_gas {
            Some(e) => e <= MAX_EXCESS_BLOB_GAS,
            None => true,
        },
    ensures
        *final(block_env) == spec_filled_block_env(
            *old(block_env),
            *header,
            after_merge,
            match header.excess_blob_gas {
                Some(e) => Some(
                    BlobExcessGasAndPrice { excess_blob_gas: e, blob_gasprice: blob_gasprice_of(e) },
                ),
                None => None,
            },
        ),
{
    let price = match header.excess_blob_gas {
        Some(e) => blob_gasprice(e),
        None => 0,
    };
    fill_block_env_with_blob_gasprice(block_env, header, after_merge, price);
}

} // verus!
