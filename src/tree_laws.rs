//! Properties of insertion and canonicalization that span several calls,
//! proved over the tree's specification.
use crate::error::{BlockchainTreeError, CanonicalError, InsertBlockErrorKind};
use crate::primitives::{BlockHash, BlockNumHash, BlockNumber, SealedBlock};
use crate::tree::{
    find_block, find_canon, find_chain_tip, find_chain_with, lemma_find_block, lemma_find_canon,
    lemma_find_chain_tip, lemma_find_chain_with, spec_insert, spec_is_known, spec_make_canonical,
    spec_parent_known, spec_finalize, spec_chain_above, CanonOutcomeView, ChainView, InsertOutcome, TreeView,
};
use vstd::prelude::*;

verus! {

/// The canonical hashes of `t` are pairwise distinct.
pub open spec fn canonical_hashes_distinct(t: TreeView) -> bool {
    forall|a: int, b: int|
        0 <= a < b < t.canonical.len() ==> #[trigger] t.canonical[a].hash
            != #[trigger] t.canonical[b].hash
}

proof fn lemma_canon_found(c: Seq<BlockNumHash>, i: int, h: BlockHash)
    requires
        0 <= i < c.len(),
        c[i].hash == h,
    ensures
        0 <= find_canon(c, h, 0) <= i,
{
    lemma_find_canon(c, h, 0);
}

proof fn lemma_push_chain_absent(chains: Seq<ChainView>, x: ChainView, h: BlockHash)
    requires
        find_chain_with(chains, h, 0) < 0,
        find_block(x.blocks, h, 0) < 0,
    ensures
        find_chain_with(chains.push(x), h, 0) == -1,
{
    lemma_find_chain_with(chains, h, 0);
    lemma_find_chain_with(chains.push(x), h, 0);
    let r = find_chain_with(chains.push(x), h, 0);
    if r >= 0 {
        if r < chains.len() {
            assert(chains.push(x)[r] == chains[r]);
        }
    }
}

/// A block at or below the finalized number is rejected with
/// `PendingBlockIsFinalized`, whatever its content and verdict, and the tree
/// is left unchanged.
pub proof fn law_finalized_boundary(
    t: TreeView,
    b: SealedBlock,
    checks: Result<(), InsertBlockErrorKind>,
)
    requires
        b.header.number <= t.finalized,
    ensures
        spec_insert(t, b, checks).0 == t,
        spec_insert(t, b, checks).1 == Err::<InsertOutcome, InsertBlockErrorKind>(
            InsertBlockErrorKind::Tree(
                BlockchainTreeError::PendingBlockIsFinalized { last_finalized: t.finalized },
            ),
        ),
{
}

/// A new block whose parent is unknown is buffered and does not enter the
/// side chains.
pub proof fn law_unknown_parent_is_buffered(
    t: TreeView,
    b: SealedBlock,
    checks: Result<(), InsertBlockErrorKind>,
)
    requires
        b.header.number > t.finalized,
        !spec_is_known(t, b.hash),
        !spec_parent_known(t, b.header.parent_hash),
    ensures
        spec_insert(t, b, checks).1 == Ok::<InsertOutcome, InsertBlockErrorKind>(
            InsertOutcome::Buffered,
        ),
        spec_insert(t, b, checks).0.chains == t.chains,
        spec_insert(t, b, checks).0.buffer.last() == b,
{
}

/// A block that is in no side chain stays out of them when any other block
/// is inserted: a buffered block reaches the side chains only by being
/// inserted itself, once its parent is known.
pub proof fn law_side_chains_gain_only_the_inserted_block(
    t: TreeView,
    c: SealedBlock,
    checks: Result<(), InsertBlockErrorKind>,
    h: BlockHash,
)
    requires
        find_chain_with(t.chains, h, 0) == -1,
        c.hash != h,
    ensures
        find_chain_with(spec_insert(t, c, checks).0.chains, h, 0) == -1,
{
    let t2 = spec_insert(t, c, checks).0;
    let p = c.header.parent_hash;
    lemma_find_chain_with(t.chains, h, 0);
    lemma_find_chain_with(t2.chains, h, 0);
    let r = find_chain_with(t2.chains, h, 0);
    if c.header.number <= t.finalized || spec_is_known(t, c.hash) || !spec_parent_known(t, p)
        || checks is Err {
        assert(t2.chains == t.chains);
    } else if find_canon(t.canonical, p, 0) < 0 && find_chain_tip(t.chains, p, 0) >= 0 {
        let i = find_chain_tip(t.chains, p, 0);
        lemma_find_chain_tip(t.chains, p, 0);
        if r >= 0 {
            let blocks = t2.chains[r].blocks;
            lemma_find_block(blocks, h, 0);
            let j = find_block(blocks, h, 0);
            if r == i {
                assert(blocks == t.chains[i].blocks.push(c));
                assert(blocks[j] == t.chains[i].blocks[j]);
                lemma_find_block(t.chains[i].blocks, h, 0);
            } else {
                assert(t2.chains[r] == t.chains[r]);
            }
        }
    } else if t.next_chain_id == u64::MAX {
        assert(t2.chains == t.chains);
    } else if r >= 0 {
        let blocks = t2.chains[r].blocks;
        lemma_find_block(blocks, h, 0);
        let j = find_block(blocks, h, 0);
        if r < t.chains.len() {
            assert(t2.chains[r] == t.chains[r]);
        } else if find_canon(t.canonical, p, 0) < 0 {
            let src = t.chains[find_chain_with(t.chains, p, 0)].blocks;
            lemma_find_chain_with(t.chains, p, 0);
            lemma_find_block(src, p, 0);
            assert(blocks[j] == src[j]);
            lemma_find_block(src, h, 0);
        }
    }
}

/// Canonicalizing a target that is already canonical changes nothing and
/// applies nothing, and so does doing it again.
pub proof fn law_make_canonical_idempotent(t: TreeView, target: BlockHash)
    requires
        find_canon(t.canonical, target, 0) >= 0,
    ensures
        spec_make_canonical(t, target) == (t, Ok::<CanonOutcomeView, CanonicalError>(
            CanonOutcomeView::AlreadyCanonical,
        )),
        spec_make_canonical(spec_make_canonical(t, target).0, target) == (t, Ok::<
            CanonOutcomeView,
            CanonicalError,
        >(CanonOutcomeView::AlreadyCanonical)),
{
}

/// After a target is committed, canonicalizing it again is a no-op.
pub proof fn law_committed_target_is_canonical(t: TreeView, target: BlockHash)
    requires
        spec_make_canonical(t, target).1 is Ok,
    ensures
        find_canon(spec_make_canonical(t, target).0.canonical, target, 0) >= 0,
        spec_make_canonical(spec_make_canonical(t, target).0, target) == (
            spec_make_canonical(t, target).0,
            Ok::<CanonOutcomeView, CanonicalError>(CanonOutcomeView::AlreadyCanonical),
        ),
{
    let t2 = spec_make_canonical(t, target).0;
    if find_canon(t.canonical, target, 0) < 0 {
        let i = find_chain_with(t.chains, target, 0);
        lemma_find_chain_with(t.chains, target, 0);
        let blocks = t.chains[i].blocks;
        lemma_find_block(blocks, target, 0);
        let j = find_block(blocks, target, 0);
        let k = find_canon(t.canonical, blocks[0].header.parent_hash, 0);
        lemma_find_canon(t.canonical, blocks[0].header.parent_hash, 0);
        assert(t2.canonical[k + 1 + j].hash == target);
        lemma_canon_found(t2.canonical, k + 1 + j, target);
    }
}

proof fn lemma_with_is_last(chains: Seq<ChainView>, x: ChainView, h: BlockHash)
    requires
        find_chain_with(chains, h, 0) < 0,
        find_block(x.blocks, h, 0) >= 0,
    ensures
        find_chain_with(chains.push(x), h, 0) == chains.len(),
{
    lemma_find_chain_with(chains, h, 0);
    lemma_find_chain_with(chains.push(x), h, 0);
    let r = find_chain_with(chains.push(x), h, 0);
    assert(chains.push(x)[chains.len() as int] == x);
    if 0 <= r < chains.len() {
        assert(chains.push(x)[r] == chains[r]);
    }
}

proof fn lemma_tip_is_last(chains: Seq<ChainView>, x: ChainView, h: BlockHash)
    requires
        find_chain_with(chains, h, 0) < 0,
        x.blocks.len() > 0,
        x.blocks.last().hash == h,
    ensures
        find_chain_tip(chains.push(x), h, 0) == chains.len(),
{
    lemma_find_chain_with(chains, h, 0);
    lemma_find_chain_tip(chains.push(x), h, 0);
    let r = find_chain_tip(chains.push(x), h, 0);
    assert(chains.push(x)[chains.len() as int] == x);
    if 0 <= r < chains.len() {
        assert(chains.push(x)[r] == chains[r]);
        let b = chains[r].blocks;
        lemma_find_block(b, h, 0);
        assert(b[b.len() - 1] == b.last());
    }
}

proof fn lemma_tip_index(t: TreeView)
    requires
        canonical_hashes_distinct(t),
        t.canonical.len() > 0,
    ensures
        find_canon(t.canonical, t.canonical.last().hash, 0) == t.canonical.len() - 1,
{
    let c = t.canonical;
    lemma_canon_found(c, c.len() - 1, c.last().hash);
    lemma_find_canon(c, c.last().hash, 0);
    let k = find_canon(c, c.last().hash, 0);
    if k < c.len() - 1 {
        assert(c[k].hash != c[c.len() - 1].hash);
    }
}

/// Two different children of the canonical tip start two side chains.
/// Canonicalizing the first discards the second: a later attempt to
/// canonicalize the second fails and leaves the tree as it is.
pub proof fn law_fork_resolution(t: TreeView, a: SealedBlock, a2: SealedBlock)
    requires
        canonical_hashes_distinct(t),
        t.canonical.len() > 0,
        t.canonical.last().number >= t.finalized,
        t.next_chain_id < u64::MAX - 1,
        a.header.parent_hash == t.canonical.last().hash,
        a2.header.parent_hash == t.canonical.last().hash,
        a.hash != a2.hash,
        a.header.number > t.finalized,
        a2.header.number > t.finalized,
        !spec_is_known(t, a.hash),
        !spec_is_known(t, a2.hash),
    ensures
        ({
            let (t1, o1) = spec_insert(t, a, Ok(()));
            let (t2, o2) = spec_insert(t1, a2, Ok(()));
            let (t3, r3) = spec_make_canonical(t2, a.hash);
            let (t4, r4) = spec_make_canonical(t3, a2.hash);
            &&& o1 == Ok::<InsertOutcome, InsertBlockErrorKind>(
                InsertOutcome::Attached { chain_id: t.next_chain_id },
            )
            &&& o2 == Ok::<InsertOutcome, InsertBlockErrorKind>(
                InsertOutcome::Attached { chain_id: (t.next_chain_id + 1) as u64 },
            )
            &&& t2.chains.len() == t.chains.len() + 2
            &&& r3 == Ok::<CanonOutcomeView, CanonicalError>(
                CanonOutcomeView::Committed {
                    reverted: Seq::empty(),
                    committed: seq![a.spec_num_hash()],
                },
            )
            &&& t3.canonical == t.canonical.push(a.spec_num_hash())
            &&& t3.chains.len() == 0
            &&& r4 == Err::<CanonOutcomeView, CanonicalError>(
                CanonicalError::BlockchainTree(
                    BlockchainTreeError::BlockHashNotFoundInChain { block_hash: a2.hash },
                ),
            )
            &&& t4 == t3
        }),
{
    let c = t.canonical;
    let tip = c.last();
    let n = t.next_chain_id;
    lemma_tip_index(t);
    let ca = ChainView { id: n, blocks: seq![a] };
    let ca2 = ChainView { id: (n + 1) as u64, blocks: seq![a2] };
    let t1 = spec_insert(t, a, Ok(())).0;
    assert(t1.chains == t.chains.push(ca));
    assert(find_block(seq![a], a2.hash, 1) == -1);
    assert(find_block(seq![a], a.hash, 0) == 0);
    lemma_push_chain_absent(t.chains, ca, a2.hash);
    let t2 = spec_insert(t1, a2, Ok(())).0;
    assert(t2.chains == t1.chains.push(ca2));
    lemma_with_is_last(t.chains, ca, a.hash);
    lemma_find_chain_with(t2.chains, a.hash, 0);
    assert(t2.chains[t.chains.len() as int] == ca);
    lemma_find_chain_with(t1.chains, a.hash, 0);
    let r = find_chain_with(t2.chains, a.hash, 0);
    if 0 <= r < t1.chains.len() {
        assert(t2.chains[r] == t1.chains[r]);
    }
    assert(r == t.chains.len());
    let t3 = spec_make_canonical(t2, a.hash).0;
    assert(seq![a].subrange(0, 1) =~= seq![a]);
    assert(crate::tree::spec_num_hashes(seq![a]) =~= seq![a.spec_num_hash()]);
    assert(c.subrange(0, c.len() as int) =~= c);
    assert(t3.canonical =~= c.push(a.spec_num_hash()));
    assert(c.subrange(c.len() as int, c.len() as int) =~= Seq::<BlockNumHash>::empty());
    assert(spec_make_canonical(t2, a.hash).1 == Ok::<CanonOutcomeView, CanonicalError>(
        CanonOutcomeView::Committed {
            reverted: Seq::empty(),
            committed: seq![a.spec_num_hash()],
        },
    ));
    lemma_find_canon(c, a2.hash, 0);
    lemma_find_canon(t3.canonical, a2.hash, 0);
    let q = find_canon(t3.canonical, a2.hash, 0);
    if 0 <= q < c.len() {
        assert(t3.canonical[q] == c[q]);
    }
}

/// Three blocks forming a linear side chain off the canonical tip, inserted
/// in order, then canonicalized at the last one: all three become canonical
/// in order, nothing is reverted, and the side chain's identifier is gone
/// from the tree and never handed out again.
pub proof fn law_linear_chain_round_trip(
    t: TreeView,
    b1: SealedBlock,
    b2: SealedBlock,
    b3: SealedBlock,
)
    requires
        canonical_hashes_distinct(t),
        t.canonical.len() > 0,
        t.canonical.last().number >= t.finalized,
        t.next_chain_id < u64::MAX,
        b1.header.parent_hash == t.canonical.last().hash,
        b2.header.parent_hash == b1.hash,
        b3.header.parent_hash == b2.hash,
        b1.hash != b2.hash && b2.hash != b3.hash && b1.hash != b3.hash,
        b1.header.number > t.finalized,
        b2.header.number > t.finalized,
        b3.header.number > t.finalized,
        !spec_is_known(t, b1.hash),
        !spec_is_known(t, b2.hash),
        !spec_is_known(t, b3.hash),
    ensures
        ({
            let (t1, o1) = spec_insert(t, b1, Ok(()));
            let (t2, o2) = spec_insert(t1, b2, Ok(()));
            let (t3, o3) = spec_insert(t2, b3, Ok(()));
            let (t4, r) = spec_make_canonical(t3, b3.hash);
            let attached = Ok::<InsertOutcome, InsertBlockErrorKind>(
                InsertOutcome::Attached { chain_id: t.next_chain_id },
            );
            let committed = seq![b1.spec_num_hash(), b2.spec_num_hash(), b3.spec_num_hash()];
            &&& o1 == attached && o2 == attached && o3 == attached
            &&& r == Ok::<CanonOutcomeView, CanonicalError>(
                CanonOutcomeView::Committed { reverted: Seq::empty(), committed },
            )
            &&& t4.canonical == t.canonical + committed
            &&& t4.chains.len() == 0
            &&& t4.next_chain_id > t.next_chain_id
        }),
{
    let c = t.canonical;
    let n = t.next_chain_id;
    let len = t.chains.len();
    lemma_tip_index(t);
    let s1 = seq![b1];
    let s2 = seq![b1, b2];
    let s3 = seq![b1, b2, b3];
    let t1 = spec_insert(t, b1, Ok(())).0;
    assert(t1.chains == t.chains.push(ChainView { id: n, blocks: s1 }));
    // second block: extends the new chain
    assert(find_block(s1, b2.hash, 1) == -1);
    lemma_push_chain_absent(t.chains, ChainView { id: n, blocks: s1 }, b2.hash);
    assert(find_block(s1, b1.hash, 0) == 0);
    lemma_with_is_last(t.chains, ChainView { id: n, blocks: s1 }, b1.hash);
    lemma_tip_is_last(t.chains, ChainView { id: n, blocks: s1 }, b1.hash);
    let t2 = spec_insert(t1, b2, Ok(())).0;
    assert(s1.push(b2) =~= s2);
    assert(t2.chains =~= t.chains.push(ChainView { id: n, blocks: s2 }));
    // third block: extends it again
    assert(find_block(s2, b3.hash, 2) == -1);
    assert(find_block(s2, b3.hash, 1) == -1);
    lemma_push_chain_absent(t.chains, ChainView { id: n, blocks: s2 }, b3.hash);
    assert(find_block(s2, b2.hash, 1) == 1);
    assert(find_block(s2, b2.hash, 0) == 1);
    lemma_with_is_last(t.chains, ChainView { id: n, blocks: s2 }, b2.hash);
    lemma_tip_is_last(t.chains, ChainView { id: n, blocks: s2 }, b2.hash);
    lemma_find_canon(c, b2.hash, 0);
    let t3 = spec_insert(t2, b3, Ok(())).0;
    assert(s2.push(b3) =~= s3);
    assert(t3.chains =~= t.chains.push(ChainView { id: n, blocks: s3 }));
    // canonicalization at the third block
    assert(find_block(s3, b3.hash, 2) == 2);
    assert(find_block(s3, b3.hash, 1) == 2);
    assert(find_block(s3, b3.hash, 0) == 2);
    lemma_with_is_last(t.chains, ChainView { id: n, blocks: s3 }, b3.hash);
    assert(s3.subrange(0, 3) =~= s3);
    assert(c.subrange(0, c.len() as int) =~= c);
    assert(c.subrange(c.len() as int, c.len() as int) =~= Seq::<BlockNumHash>::empty());
    let committed = seq![b1.spec_num_hash(), b2.spec_num_hash(), b3.spec_num_hash()];
    assert(crate::tree::spec_num_hashes(s3) =~= committed);
}

/// The invariant of a tree: a non-empty canonical chain with distinct
/// hashes; side chains that are non-empty, hold no canonical block and no
/// hash twice; and side-chain identifiers that are distinct and below the
/// next one to be handed out.
pub open spec fn tree_wf(t: TreeView) -> bool {
    &&& t.canonical.len() > 0
    &&& canonical_hashes_distinct(t)
    &&& forall|i: int| 0 <= i < t.chains.len() ==> #[trigger] t.chains[i].blocks.len() > 0
    &&& forall|i: int, j: int|
        0 <= i < t.chains.len() && 0 <= j < t.chains[i].blocks.len() ==> find_canon(
            t.canonical,
            #[trigger] t.chains[i].blocks[j].hash,
            0,
        ) == -1
    &&& forall|i: int, a: int, b: int|
        0 <= i < t.chains.len() && 0 <= a < b < t.chains[i].blocks.len() ==> #[trigger] t.chains[i].blocks[a].hash
            != #[trigger] t.chains[i].blocks[b].hash
    &&& forall|i: int| 0 <= i < t.chains.len() ==> #[trigger] t.chains[i].id < t.next_chain_id
    &&& forall|i: int, j: int|
        0 <= i < j < t.chains.len() ==> #[trigger] t.chains[i].id != #[trigger] t.chains[j].id
}

/// Insertion keeps the invariant.
pub proof fn lemma_insert_keeps_wf(t: TreeView, b: SealedBlock, checks: Result<(), InsertBlockErrorKind>)
    requires
        tree_wf(t),
    ensures
        tree_wf(spec_insert(t, b, checks).0),
{
    let t2 = spec_insert(t, b, checks).0;
    let p = b.header.parent_hash;
    if b.header.number <= t.finalized || spec_is_known(t, b.hash) || !spec_parent_known(t, p)
        || checks is Err {
        assert(t2.chains == t.chains && t2.canonical == t.canonical);
    } else {
        lemma_find_canon(t.canonical, b.hash, 0);
        lemma_find_chain_with(t.chains, b.hash, 0);
        if find_canon(t.canonical, p, 0) < 0 && find_chain_tip(t.chains, p, 0) >= 0 {
            let i = find_chain_tip(t.chains, p, 0);
            lemma_find_chain_tip(t.chains, p, 0);
            let nb = t.chains[i].blocks.push(b);
            lemma_find_block(t.chains[i].blocks, b.hash, 0);
            assert forall|x: int, j: int|
                0 <= x < t2.chains.len() && 0 <= j < t2.chains[x].blocks.len() implies find_canon(
                t2.canonical,
                #[trigger] t2.chains[x].blocks[j].hash,
                0,
            ) == -1 by {
                if x == i && j == t.chains[i].blocks.len() {
                    assert(t2.chains[x].blocks[j] == b);
                } else if x == i {
                    assert(t2.chains[x].blocks[j] == t.chains[i].blocks[j]);
                } else {
                    assert(t2.chains[x] == t.chains[x]);
                }
            }
            assert forall|x: int, a: int, c: int|
                0 <= x < t2.chains.len() && 0 <= a < c < t2.chains[x].blocks.len()
                implies #[trigger] t2.chains[x].blocks[a].hash
                != #[trigger] t2.chains[x].blocks[c].hash by {
                if x == i {
                    assert(t2.chains[x].blocks == nb);
                    if c == t.chains[i].blocks.len() {
                        assert(nb[a] == t.chains[i].blocks[a]);
                    } else {
                        assert(nb[a] == t.chains[i].blocks[a]);
                        assert(nb[c] == t.chains[i].blocks[c]);
                    }
                } else {
                    assert(t2.chains[x] == t.chains[x]);
                }
            }
            assert forall|x: int| 0 <= x < t2.chains.len() implies #[trigger] t2.chains[x].blocks.len() > 0 by {
                if x != i {
                    assert(t2.chains[x] == t.chains[x]);
                }
            }
            assert forall|x: int| 0 <= x < t2.chains.len() implies #[trigger] t2.chains[x].id < t2.next_chain_id by {
                if x != i {
                    assert(t2.chains[x] == t.chains[x]);
                }
            }
            assert forall|x: int, y: int| 0 <= x < y < t2.chains.len() implies #[trigger] t2.chains[x].id
                != #[trigger] t2.chains[y].id by {
                assert(t2.chains[x].id == t.chains[x].id);
                assert(t2.chains[y].id == t.chains[y].id);
            }
        } else if t.next_chain_id == u64::MAX {
            assert(t2 == t);
        } else {
            let nb = crate::tree::spec_fork_blocks(t, b);
            let len = t.chains.len() as int;
            assert(t2.chains == t.chains.push(ChainView { id: t.next_chain_id, blocks: nb }));
            if find_canon(t.canonical, p, 0) < 0 {
                let si = find_chain_with(t.chains, p, 0);
                lemma_find_chain_with(t.chains, p, 0);
                let src = t.chains[si].blocks;
                lemma_find_block(src, p, 0);
                lemma_find_block(src, b.hash, 0);
                let j = find_block(src, p, 0);
                assert(nb.len() == j + 2);
                assert forall|a: int| 0 <= a <= j implies #[trigger] nb[a] == src[a] by {}
                assert forall|q: int| 0 <= q < nb.len() implies find_canon(t.canonical, #[trigger] nb[q].hash, 0) == -1 by {
                    if q <= j {
                        assert(nb[q] == src[q]);
                    } else {
                        assert(nb[q] == b);
                    }
                }
                assert forall|a: int, c: int| 0 <= a < c < nb.len() implies #[trigger] nb[a].hash
                    != #[trigger] nb[c].hash by {
                    assert(nb[a] == src[a]);
                    if c <= j {
                        assert(nb[c] == src[c]);
                    } else {
                        assert(nb[c] == b);
                    }
                }
            } else {
                assert(nb[0] == b);
            }
            assert forall|x: int, j: int|
                0 <= x < t2.chains.len() && 0 <= j < t2.chains[x].blocks.len() implies find_canon(
                t2.canonical,
                #[trigger] t2.chains[x].blocks[j].hash,
                0,
            ) == -1 by {
                if x == len {
                    assert(t2.chains[x].blocks[j] == nb[j]);
                } else {
                    assert(t2.chains[x] == t.chains[x]);
                }
            }
            assert forall|x: int, a: int, c: int|
                0 <= x < t2.chains.len() && 0 <= a < c < t2.chains[x].blocks.len()
                implies #[trigger] t2.chains[x].blocks[a].hash
                != #[trigger] t2.chains[x].blocks[c].hash by {
                if x == len {
                    assert(t2.chains[x].blocks == nb);
                } else {
                    assert(t2.chains[x] == t.chains[x]);
                }
            }
            assert forall|x: int| 0 <= x < t2.chains.len() implies #[trigger] t2.chains[x].blocks.len() > 0 by {
                if x != len {
                    assert(t2.chains[x] == t.chains[x]);
                }
            }
            assert forall|x: int| 0 <= x < t2.chains.len() implies #[trigger] t2.chains[x].id < t2.next_chain_id by {
                if x != len {
                    assert(t2.chains[x] == t.chains[x]);
                }
            }
            assert forall|x: int, y: int| 0 <= x < y < t2.chains.len() implies #[trigger] t2.chains[x].id
                != #[trigger] t2.chains[y].id by {
                assert(t2.chains[x] == t.chains[x]);
                if y != len {
                    assert(t2.chains[y] == t.chains[y]);
                }
            }
        }
    }
}

/// Canonicalization keeps the invariant.
pub proof fn lemma_make_canonical_keeps_wf(t: TreeView, target: BlockHash)
    requires
        tree_wf(t),
    ensures
        tree_wf(spec_make_canonical(t, target).0),
{
    let t2 = spec_make_canonical(t, target).0;
    if spec_make_canonical(t, target).1 is Ok && find_canon(t.canonical, target, 0) < 0 {
        let i = find_chain_with(t.chains, target, 0);
        lemma_find_chain_with(t.chains, target, 0);
        let blocks = t.chains[i].blocks;
        lemma_find_block(blocks, target, 0);
        let j = find_block(blocks, target, 0);
        let k = find_canon(t.canonical, blocks[0].header.parent_hash, 0);
        lemma_find_canon(t.canonical, blocks[0].header.parent_hash, 0);
        let c = t.canonical;
        let nc = t2.canonical;
        assert(nc.len() == k + 1 + j + 1);
        assert forall|a: int| 0 <= a <= k implies #[trigger] nc[a] == c[a] by {}
        assert forall|a: int| k < a < nc.len() implies #[trigger] nc[a].hash == blocks[a - k - 1].hash by {}
        assert forall|a: int, b: int| 0 <= a < b < nc.len() implies #[trigger] nc[a].hash
            != #[trigger] nc[b].hash by {
            if b <= k {
                assert(nc[a] == c[a] && nc[b] == c[b]);
            } else if a <= k {
                assert(nc[a] == c[a]);
                assert(nc[b].hash == blocks[b - k - 1].hash);
                assert(find_canon(c, t.chains[i].blocks[b - k - 1].hash, 0) == -1);
                lemma_find_canon(c, blocks[b - k - 1].hash, 0);
            } else {
                assert(nc[a].hash == blocks[a - k - 1].hash);
                assert(nc[b].hash == blocks[b - k - 1].hash);
                assert(t.chains[i].blocks[a - k - 1].hash != t.chains[i].blocks[b - k - 1].hash);
            }
        }
    }
}

/// Positions in `s` of the elements that `s.filter(p)` keeps, in order.
pub proof fn lemma_filter_origin<A>(s: Seq<A>, p: spec_fn(A) -> bool) -> (origin: Seq<int>)
    ensures
        origin.len() == s.filter(p).len(),
        forall|x: int|
            0 <= x < origin.len() ==> 0 <= #[trigger] origin[x] < s.len() && s.filter(p)[x]
                == s[origin[x]],
        forall|x: int, y: int| 0 <= x < y < origin.len() ==> #[trigger] origin[x] < #[trigger] origin[y],
    decreases s.len(),
{
    reveal(Seq::filter);
    if s.len() == 0 {
        Seq::empty()
    } else {
        let o = lemma_filter_origin(s.drop_last(), p);
        if p(s.last()) {
            o.push(s.len() - 1)
        } else {
            o
        }
    }
}

/// Finalization keeps the invariant.
pub proof fn lemma_finalize_keeps_wf(t: TreeView, n: BlockNumber)
    requires
        tree_wf(t),
    ensures
        tree_wf(spec_finalize(t, n)),
{
    let t2 = spec_finalize(t, n);
    let f = t2.finalized;
    let o = lemma_filter_origin(t.chains, |c: ChainView| spec_chain_above(c, f));
    assert(t2.chains == crate::tree::spec_kept_chains(t.chains, f));
    assert forall|x: int| 0 <= x < t2.chains.len() implies #[trigger] t2.chains[x] == t.chains[o[x]] by {}
    assert forall|x: int| 0 <= x < t2.chains.len() implies #[trigger] t2.chains[x].blocks.len() > 0 by {
        assert(t2.chains[x] == t.chains[o[x]]);
    }
    assert forall|x: int, j: int|
        0 <= x < t2.chains.len() && 0 <= j < t2.chains[x].blocks.len() implies find_canon(
        t2.canonical,
        #[trigger] t2.chains[x].blocks[j].hash,
        0,
    ) == -1 by {
        assert(t2.chains[x] == t.chains[o[x]]);
    }
    assert forall|x: int, a: int, b: int|
        0 <= x < t2.chains.len() && 0 <= a < b < t2.chains[x].blocks.len()
        implies #[trigger] t2.chains[x].blocks[a].hash != #[trigger] t2.chains[x].blocks[b].hash by {
        assert(t2.chains[x] == t.chains[o[x]]);
    }
    assert forall|x: int| 0 <= x < t2.chains.len() implies #[trigger] t2.chains[x].id < t2.next_chain_id by {
        assert(t2.chains[x] == t.chains[o[x]]);
    }
    assert forall|x: int, y: int| 0 <= x < y < t2.chains.len() implies #[trigger] t2.chains[x].id
        != #[trigger] t2.chains[y].id by {
        assert(t2.chains[x] == t.chains[o[x]]);
        assert(t2.chains[y] == t.chains[o[y]]);
        assert(o[x] < o[y]);
    }
}

/// Chain identifiers are never handed out twice: the next identifier never
/// goes down, and a side chain created by an insertion gets the identifier
/// that was next, which is above every identifier still in use.
pub proof fn law_chain_ids_never_reused(
    t: TreeView,
    b: SealedBlock,
    checks: Result<(), InsertBlockErrorKind>,
    target: BlockHash,
    n: BlockNumber,
)
    requires
        tree_wf(t),
    ensures
        spec_insert(t, b, checks).0.next_chain_id >= t.next_chain_id,
        spec_make_canonical(t, target).0.next_chain_id == t.next_chain_id,
        spec_finalize(t, n).next_chain_id == t.next_chain_id,
        spec_insert(t, b, checks).0.chains.len() == t.chains.len() + 1 ==> ({
            let c = spec_insert(t, b, checks).0.chains.last();
            &&& c.id == t.next_chain_id
            &&& forall|i: int| 0 <= i < t.chains.len() ==> #[trigger] t.chains[i].id < c.id
        }),
{
    lemma_find_chain_tip(t.chains, b.header.parent_hash, 0);
}

} // verus!
