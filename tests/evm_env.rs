use blockchain_tree::evm_env::{fill_block_env, fill_block_env_with_blob_gasprice, BlobExcessGasAndPrice, BlockEnv};
use blockchain_tree::primitives::{Address, B256, Header};

fn header(excess_blob_gas: Option<u64>, base_fee: Option<u64>) -> Header {
    Header {
        parent_hash: B256::from_low_u64(1),
        beneficiary: Address([9u8; 20]),
        number: 42,
        state_root: B256::zero(),
        timestamp: 1_700_000_000,
        gas_limit: 30_000_000,
        gas_used: 1,
        difficulty: 12345,
        base_fee_per_gas: base_fee,
        excess_blob_gas,
        mix_hash: B256::from_low_u64(77),
    }
}

#[test]
fn post_merge_env_uses_randomness() {
    let mut env = BlockEnv::default();
    fill_block_env(&mut env, &header(Some(0), Some(7)), true);
    assert_eq!(env.number, 42);
    assert_eq!(env.coinbase, Address([9u8; 20]));
    assert_eq!(env.timestamp, 1_700_000_000);
    assert_eq!(env.gas_limit, 30_000_000);
    assert_eq!(env.basefee, 7);
    assert_eq!(env.difficulty, 0);
    assert_eq!(env.prevrandao, Some(B256::from_low_u64(77)));
    assert_eq!(env.blob_excess_gas_and_price, Some(BlobExcessGasAndPrice { excess_blob_gas: 0, blob_gasprice: 1 }));
}

#[test]
fn pre_merge_env_uses_difficulty() {
    let mut env = BlockEnv::default();
    env.prevrandao = Some(B256::from_low_u64(5));
    fill_block_env(&mut env, &header(None, None), false);
    assert_eq!(env.difficulty, 12345);
    assert_eq!(env.prevrandao, None);
    assert_eq!(env.basefee, 0);
    assert_eq!(env.blob_excess_gas_and_price, None);
}

#[test]
fn blob_gas_price_follows_excess() {
    for (excess, price) in [(2314057u64, 1u128), (2314058, 2), (10 * 1024 * 1024, 23)] {
        let mut env = BlockEnv::default();
        fill_block_env(&mut env, &header(Some(excess), Some(1)), true);
        assert_eq!(env.blob_excess_gas_and_price, Some(BlobExcessGasAndPrice { excess_blob_gas: excess, blob_gasprice: price }));
    }
}

#[test]
fn missing_excess_keeps_previous_blob_fields() {
    let mut env = BlockEnv::default();
    let prev = Some(BlobExcessGasAndPrice { excess_blob_gas: 3, blob_gasprice: 9 });
    env.blob_excess_gas_and_price = prev;
    fill_block_env_with_blob_gasprice(&mut env, &header(None, Some(2)), true, 1000);
    assert_eq!(env.blob_excess_gas_and_price, prev);
    fill_block_env_with_blob_gasprice(&mut env, &header(Some(8), Some(2)), true, 1000);
    assert_eq!(env.blob_excess_gas_and_price, Some(BlobExcessGasAndPrice { excess_blob_gas: 8, blob_gasprice: 1000 }));
}
