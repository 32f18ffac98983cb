use blockchain_tree::error::ProviderError;
use blockchain_tree::primitives::{Address, B256, Header, SealedBlock};
use blockchain_tree::retry::{BlockId, CacheLookup, LookupAction};

fn block(hash: u64) -> SealedBlock {
    SealedBlock {
        hash: B256::from_low_u64(hash),
        header: Header {
            parent_hash: B256::from_low_u64(hash - 1),
            beneficiary: Address([7u8; 20]),
            number: hash,
            state_root: B256::zero(),
            timestamp: 0,
            gas_limit: 0,
            gas_used: 0,
            difficulty: 0,
            base_fee_per_gas: None,
            excess_blob_gas: None,
            mix_hash: B256::zero(),
        },
        transaction_count: 2,
        ommer_count: 0,
    }
}

/// Runs a lookup against a cache that gives the answers in order; returns
/// the result and how many times the cache was asked.
fn run(id: BlockId, answers: Vec<Result<Option<SealedBlock>, ProviderError>>) -> (Result<Option<SealedBlock>, ProviderError>, usize) {
    let mut lookup = CacheLookup::new(id);
    let mut asked = 0;
    for answer in answers {
        asked += 1;
        match lookup.on_answer(answer) {
            LookupAction::Retry => continue,
            LookupAction::Done(r) => return (r, asked),
        }
    }
    panic!("the lookup asked for more answers than the cache had");
}

#[test]
fn latest_miss_then_hit_returns_block() {
    let b = block(5);
    let (r, asked) = run(BlockId::Latest, vec![Ok(None), Ok(Some(b)), Ok(None)]);
    assert_eq!(r, Ok(Some(b)));
    assert_eq!(asked, 2);
}

#[test]
fn latest_two_misses_is_not_found_without_third_attempt() {
    let (r, asked) = run(BlockId::Latest, vec![Ok(None), Ok(None), Ok(Some(block(5)))]);
    assert_eq!(r, Ok(None));
    assert_eq!(asked, 2);
}

#[test]
fn other_ids_do_not_retry() {
    for id in [BlockId::Hash(B256::from_low_u64(1)), BlockId::Number(3), BlockId::Safe, BlockId::Finalized, BlockId::Earliest] {
        let (r, asked) = run(id, vec![Ok(None), Ok(Some(block(5)))]);
        assert_eq!(r, Ok(None));
        assert_eq!(asked, 1);
    }
}

#[test]
fn cache_error_ends_lookup() {
    let (r, asked) = run(BlockId::Latest, vec![Err(ProviderError::Database("down".to_string())), Ok(Some(block(5)))]);
    assert_eq!(r, Err(ProviderError::Database("down".to_string())));
    assert_eq!(asked, 1);
}

#[test]
fn block_id_predicates() {
    assert!(BlockId::Pending.is_pending());
    assert!(!BlockId::Latest.is_pending());
    assert!(BlockId::Latest.is_latest());
    assert!(!BlockId::Number(1).is_latest());
}
