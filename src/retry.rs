//! The read side's cache lookup for a block, which tolerates a short lag
//! between a canonicalization and the cache seeing it: a miss on "latest" is
//! retried once, and only once.
//!
//! The caller asks the cache; this state machine decides, from each answer,
//! whether to ask again or what to return.
use crate::error::ProviderError;
use crate::primitives::{BlockHash, BlockNumber, SealedBlock};
use vstd::prelude::*;

verus! {

/// How many times a miss on "latest" is retried.
pub const MAX_RETRIES: u64 = 1;

/// The ways a reader names a block.
#[derive(Debug, Clone, Copy, PartialEq, Eq, Structural)]
pub enum BlockId {
    Hash(BlockHash),
    Number(BlockNumber),
    Latest,
    Pending,
    Safe,
    Finalized,
    Earliest,
}

impl BlockId {
    /// Whether the id names the pending block.
    pub fn is_pending(&self) -> (r: bool)
        ensures
            r == self is Pending,
    {
        matches!(self, BlockId::Pending)
    }

    /// Whether the id names the latest block.
    pub fn is_latest(&self) -> (r: bool)
        ensures
            r == self is Latest,
    {
        matches!(self, BlockId::Latest)
    }
}

/// What to do after an answer from the cache.
#[derive(Debug, PartialEq, Eq)]
pub enum LookupAction {
    /// Ask the cache again for the same hash.
    Retry,
    /// The lookup is over: return this.
    Done(Result<Option<SealedBlock>, ProviderError>),
}

/// A cache lookup in progress: whether it was resolved from "latest", and
/// how many answers the cache has given so far.
#[derive(Debug, Clone, Copy, PartialEq, Eq, Structural)]
pub struct CacheLookup {
    pub latest: bool,
    pub attempts: u64,
}

/// The action after the cache answered `answer` to a lookup in state `s`: a
/// found block or an error ends the lookup; a miss is retried only for
/// "latest" and only while retries are left.
pub open spec fn spec_next_action(
    s: CacheLookup,
    answer: Result<Option<SealedBlock>, ProviderError>,
) -> LookupAction {
    match answer {
        Ok(None) => if s.latest && s.attempts < MAX_RETRIES {
            LookupAction::Retry
        } else {
            LookupAction::Done(Ok(None))
        },
        _ => LookupAction::Done(answer),
    }
}

impl CacheLookup {
    /// A lookup for `id`, before the cache was asked.
    pub fn new(id: BlockId) -> (r: Self)
        ensures
            r == (CacheLookup { latest: id is Latest, attempts: 0 }),
    {
        CacheLookup { latest: id.is_latest(), attempts: 0 }
    }

    /// Takes the cache's answer and says whether to ask again or what to
    /// return.
    pub fn on_answer(&mut self, answer: Result<Option<SealedBlock>, ProviderError>) -> (r:
        LookupAction)
        ensures
            r == spec_next_action(*old(self), answer),
            final(self).latest == old(self).latest,
            final(self).attempts == if old(self).attempts < u64::MAX {
                old(self).attempts + 1
            } else {
                old(self).attempts as int
            },
    {
        let action = match answer {
            Ok(None) => {
                if self.latest && self.attempts < MAX_RETRIES {
                    LookupAction::Retry
                } else {
                    LookupAction::Done(Ok(None))
                }
            },
            other => LookupAction::Done(other),
        };
        if self.attempts < u64::MAX {
            self.attempts = self.attempts + 1;
        }
        action
    }
}

/// A "latest" lookup that misses once and then hits returns the block found
/// on the retry; one that misses twice returns not-found; and after the
/// retry no answer ever asks for a third attempt.
pub proof fn law_latest_retries_once(b: SealedBlock, answer: Result<Option<SealedBlock>, ProviderError>)
    ensures
        spec_next_action(CacheLookup { latest: true, attempts: 0 }, Ok(None)) == LookupAction::Retry,
        spec_next_action(CacheLookup { latest: true, attempts: 1 }, Ok(Some(b)))
            == LookupAction::Done(Ok(Some(b))),
        spec_next_action(CacheLookup { latest: true, attempts: 1 }, Ok(None))
            == LookupAction::Done(Ok(None)),
        forall|s: CacheLookup| s.attempts >= 1 ==> spec_next_action(s, answer) != LookupAction::Retry,
{
}

/// A lookup that was not resolved from "latest" never retries.
pub proof fn law_other_ids_never_retry(s: CacheLookup, answer: Result<Option<SealedBlock>, ProviderError>)
    requires
        !s.latest,
    ensures
        spec_next_action(s, answer) != LookupAction::Retry,
{
}

} // verus!
