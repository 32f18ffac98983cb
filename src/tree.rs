//! The block tree: the canonical chain, the side chains that fork off it, and
//! the buffer of blocks whose parent is not known yet.
//!
//! The tree makes every decision of insertion and canonicalization. Consensus
//! validation, sender recovery and execution are done by the caller, which
//! hands their combined verdict to `insert_block`; persisting the blocks that
//! canonicalization reverts and commits is left to the caller as well.
use crate::error::{BlockchainTreeError, CanonicalError, InsertBlockError, InsertBlockErrorKind};
use crate::primitives::{BlockHash, BlockNumHash, BlockNumber, SealedBlock};
use crate::tree_laws::{
    lemma_finalize_keeps_wf, lemma_insert_keeps_wf, lemma_make_canonical_keeps_wf, tree_wf,
};
use vstd::prelude::*;

verus! {

/// A side chain: blocks that descend, one from the next, from a block of the
/// canonical chain.
pub struct SideChain {
    id: u64,
    blocks: Vec<SealedBlock>,
}

/// The contents of a side chain.
pub struct ChainView {
    pub id: u64,
    pub blocks: Seq<SealedBlock>,
}

impl View for SideChain {
    type V = ChainView;

    closed spec fn view(&self) -> ChainView {
        ChainView { id: self.id, blocks: self.blocks@ }
    }
}

/// The contents of a tree.
pub struct TreeView {
    /// The canonical chain, oldest block first.
    pub canonical: Seq<BlockNumHash>,
    /// The number of the last finalized block.
    pub finalized: BlockNumber,
    /// The side chains, in the order in which they were created.
    pub chains: Seq<ChainView>,
    /// Blocks whose parent is not known, oldest first.
    pub buffer: Seq<SealedBlock>,
    /// How many blocks the buffer holds before it evicts the oldest.
    pub buffer_limit: usize,
    /// The identifier that the next side chain gets.
    pub next_chain_id: u64,
}

/// What became of an inserted block.
#[derive(Debug, Clone, Copy, PartialEq, Eq, Structural)]
pub enum InsertOutcome {
    /// The block is already known: canonical, in a side chain, or buffered.
    AlreadySeen,
    /// The block's parent is unknown: the block waits in the buffer.
    Buffered,
    /// The block was attached to the side chain with this identifier.
    Attached { chain_id: u64 },
}

/// What a successful canonicalization did.
#[derive(Debug, Clone, PartialEq, Eq)]
pub enum CanonOutcome {
    /// The target was already canonical: nothing changed.
    AlreadyCanonical,
    /// `reverted` left the canonical chain (oldest first; the store undoes
    /// them from the last one backwards), then `committed` joined it, oldest
    /// first.
    Committed { reverted: Vec<BlockNumHash>, committed: Vec<BlockNumHash> },
}

/// The contents of a `CanonOutcome`.
pub enum CanonOutcomeView {
    AlreadyCanonical,
    Committed { reverted: Seq<BlockNumHash>, committed: Seq<BlockNumHash> },
}

impl View for CanonOutcome {
    type V = CanonOutcomeView;

    open spec fn view(&self) -> CanonOutcomeView {
        match self {
            CanonOutcome::AlreadyCanonical => CanonOutcomeView::AlreadyCanonical,
            CanonOutcome::Committed { reverted, committed } => CanonOutcomeView::Committed {
                reverted: reverted@,
                committed: committed@,
            },
        }
    }
}

/// Index of the first canonical entry at or after `from` with hash `h`, or -1.
pub open spec fn find_canon(c: Seq<BlockNumHash>, h: BlockHash, from: int) -> int
    decreases c.len() - from,
{
    if from < 0 || from >= c.len() {
        -1
    } else if c[from].hash == h {
        from
    } else {
        find_canon(c, h, from + 1)
    }
}

/// Index of the first block at or after `from` with hash `h`, or -1.
pub open spec fn find_block(s: Seq<SealedBlock>, h: BlockHash, from: int) -> int
    decreases s.len() - from,
{
    if from < 0 || from >= s.len() {
        -1
    } else if s[from].hash == h {
        from
    } else {
        find_block(s, h, from + 1)
    }
}

/// Index of the first side chain at or after `from` that holds a block with
/// hash `h`, or -1.
pub open spec fn find_chain_with(chains: Seq<ChainView>, h: BlockHash, from: int) -> int
    decreases chains.len() - from,
{
    if from < 0 || from >= chains.len() {
        -1
    } else if find_block(chains[from].blocks, h, 0) >= 0 {
        from
    } else {
        find_chain_with(chains, h, from + 1)
    }
}

/// Index of the first side chain at or after `from` whose last block has
/// hash `h`, or -1.
pub open spec fn find_chain_tip(chains: Seq<ChainView>, h: BlockHash, from: int) -> int
    decreases chains.len() - from,
{
    if from < 0 || from >= chains.len() {
        -1
    } else if chains[from].blocks.len() > 0 && chains[from].blocks.last().hash == h {
        from
    } else {
        find_chain_tip(chains, h, from + 1)
    }
}

/// Whether a block with hash `h` is canonical, in a side chain or buffered.
pub open spec fn spec_is_known(t: TreeView, h: BlockHash) -> bool {
    find_canon(t.canonical, h, 0) >= 0 || find_chain_with(t.chains, h, 0) >= 0 || find_block(
        t.buffer,
        h,
        0,
    ) >= 0
}

/// Whether the parent of a block with parent hash `p` is in the tree
/// (canonical or in a side chain).
pub open spec fn spec_parent_known(t: TreeView, p: BlockHash) -> bool {
    find_canon(t.canonical, p, 0) >= 0 || find_chain_with(t.chains, p, 0) >= 0
}

/// The buffer after `b` is added: when it is full, the oldest block leaves.
pub open spec fn spec_buffer_push(buf: Seq<SealedBlock>, limit: usize, b: SealedBlock) -> Seq<
    SealedBlock,
> {
    if buf.len() >= limit && buf.len() > 0 {
        buf.drop_first().push(b)
    } else {
        buf.push(b)
    }
}

/// The blocks of the new side chain that `b` starts: `b` alone when its
/// parent is canonical, else the parent's chain up to the parent, then `b`.
pub open spec fn spec_fork_blocks(t: TreeView, b: SealedBlock) -> Seq<SealedBlock> {
    let p = b.header.parent_hash;
    if find_canon(t.canonical, p, 0) >= 0 {
        seq![b]
    } else {
        let blocks = t.chains[find_chain_with(t.chains, p, 0)].blocks;
        blocks.subrange(0, find_block(blocks, p, 0) + 1).push(b)
    }
}

/// The tree and the result after inserting `b`, where `checks` is the verdict
/// of consensus validation, sender recovery and execution on `b`.
///
/// In order: a block at or below the finalized number is rejected; a known
/// block is left alone; a block whose parent is unknown is buffered; a failed
/// verdict is returned; a block whose parent is the last block of a side
/// chain extends that chain; any other block starts a new side chain.
pub open spec fn spec_insert(
    t: TreeView,
    b: SealedBlock,
    checks: Result<(), InsertBlockErrorKind>,
) -> (TreeView, Result<InsertOutcome, InsertBlockErrorKind>) {
    let p = b.header.parent_hash;
    if b.header.number <= t.finalized {
        (
            t,
            Err(
                InsertBlockErrorKind::Tree(
                    BlockchainTreeError::PendingBlockIsFinalized { last_finalized: t.finalized },
                ),
            ),
        )
    } else if spec_is_known(t, b.hash) {
        (t, Ok(InsertOutcome::AlreadySeen))
    } else if !spec_parent_known(t, p) {
        (
            TreeView { buffer: spec_buffer_push(t.buffer, t.buffer_limit, b), ..t },
            Ok(InsertOutcome::Buffered),
        )
    } else if checks is Err {
        (t, Err(checks->Err_0))
    } else if find_canon(t.canonical, p, 0) < 0 && find_chain_tip(t.chains, p, 0) >= 0 {
        let i = find_chain_tip(t.chains, p, 0);
        (
            TreeView {
                chains: t.chains.update(
                    i,
                    ChainView { id: t.chains[i].id, blocks: t.chains[i].blocks.push(b) },
                ),
                ..t
            },
            Ok(InsertOutcome::Attached { chain_id: t.chains[i].id }),
        )
    } else if t.next_chain_id == u64::MAX {
        (
            t,
            Err(
                InsertBlockErrorKind::Tree(
                    BlockchainTreeError::BlockSideChainIdConsistency { chain_id: t.next_chain_id },
                ),
            ),
        )
    } else {
        (
            TreeView {
                chains: t.chains.push(
                    ChainView { id: t.next_chain_id, blocks: spec_fork_blocks(t, b) },
                ),
                next_chain_id: (t.next_chain_id + 1) as u64,
                ..t
            },
            Ok(InsertOutcome::Attached { chain_id: t.next_chain_id }),
        )
    }
}

/// Numbers and hashes of a sequence of blocks.
pub open spec fn spec_num_hashes(s: Seq<SealedBlock>) -> Seq<BlockNumHash> {
    s.map_values(|b: SealedBlock| b.spec_num_hash())
}

/// The tree and the result after making the block with hash `target`
/// canonical.
///
/// A canonical target changes nothing. Else the target must be in a side
/// chain whose fork block is canonical and not below the finalized number.
/// The canonical blocks after the fork block are reverted, the side chain's
/// blocks up to the target are committed, and every side chain is discarded.
pub open spec fn spec_make_canonical(t: TreeView, target: BlockHash) -> (
    TreeView,
    Result<CanonOutcomeView, CanonicalError>,
) {
    if find_canon(t.canonical, target, 0) >= 0 {
        (t, Ok(CanonOutcomeView::AlreadyCanonical))
    } else if find_chain_with(t.chains, target, 0) < 0 {
        (
            t,
            Err(
                CanonicalError::BlockchainTree(
                    BlockchainTreeError::BlockHashNotFoundInChain { block_hash: target },
                ),
            ),
        )
    } else {
        let blocks = t.chains[find_chain_with(t.chains, target, 0)].blocks;
        let fork = blocks[0].header.parent_hash;
        let k = find_canon(t.canonical, fork, 0);
        if k < 0 {
            (
                t,
                Err(
                    CanonicalError::BlockchainTree(
                        BlockchainTreeError::CanonicalChain { block_hash: fork },
                    ),
                ),
            )
        } else if t.canonical[k].number < t.finalized {
            (
                t,
                Err(
                    CanonicalError::BlockchainTree(
                        BlockchainTreeError::PendingBlockIsFinalized {
                            last_finalized: t.finalized,
                        },
                    ),
                ),
            )
        } else {
            let committed = spec_num_hashes(
                blocks.subrange(0, find_block(blocks, target, 0) + 1),
            );
            let reverted = t.canonical.subrange(k + 1, t.canonical.len() as int);
            (
                TreeView {
                    canonical: t.canonical.subrange(0, k + 1) + committed,
                    chains: Seq::empty(),
                    ..t
                },
                Ok(CanonOutcomeView::Committed { reverted, committed }),
            )
        }
    }
}

/// Whether a side chain survives finalization at `f`: it forks off above the
/// finalized block.
pub open spec fn spec_chain_above(c: ChainView, f: BlockNumber) -> bool {
    c.blocks.len() > 0 && c.blocks[0].header.number > f
}

/// The side chains of `s` that survive finalization at `f`, in order.
pub open spec fn spec_kept_chains(s: Seq<ChainView>, f: BlockNumber) -> Seq<ChainView> {
    s.filter(|c: ChainView| spec_chain_above(c, f))
}

/// The blocks of `s` above `f`, in order.
pub open spec fn spec_kept_blocks(s: Seq<SealedBlock>, f: BlockNumber) -> Seq<SealedBlock> {
    s.filter(|b: SealedBlock| b.header.number > f)
}

/// The tree after the finalized number is raised to `n` (a lower `n` leaves
/// it as it is). Side chains that fork off at or below the finalized block
/// are pruned, and buffered blocks at or below it are evicted.
pub open spec fn spec_finalize(t: TreeView, n: BlockNumber) -> TreeView {
    let f = if n > t.finalized {
        n
    } else {
        t.finalized
    };
    TreeView {
        finalized: f,
        chains: spec_kept_chains(t.chains, f),
        buffer: spec_kept_blocks(t.buffer, f),
        ..t
    }
}

/// The blocks of `buf` whose parent hash is `h`, in buffer order.
pub open spec fn spec_children(buf: Seq<SealedBlock>, h: BlockHash) -> Seq<SealedBlock> {
    buf.filter(|b: SealedBlock| b.header.parent_hash == h)
}

/// The blocks of `buf` whose parent hash is not `h`, in buffer order.
pub open spec fn spec_non_children(buf: Seq<SealedBlock>, h: BlockHash) -> Seq<SealedBlock> {
    buf.filter(|b: SealedBlock| b.header.parent_hash != h)
}

pub proof fn lemma_find_canon(c: Seq<BlockNumHash>, h: BlockHash, from: int)
    requires
        0 <= from,
    ensures
        ({
            let r = find_canon(c, h, from);
            &&& r == -1 || (from <= r < c.len() && c[r].hash == h)
            &&& forall|i: int| from <= i < c.len() && (r == -1 || i < r) ==> c[i].hash != h
        }),
    decreases c.len() - from,
{
    if from < c.len() && c[from].hash != h {
        lemma_find_canon(c, h, from + 1);
    }
}

pub proof fn lemma_find_block(s: Seq<SealedBlock>, h: BlockHash, from: int)
    requires
        0 <= from,
    ensures
        ({
            let r = find_block(s, h, from);
            &&& r == -1 || (from <= r < s.len() && s[r].hash == h)
            &&& forall|i: int| from <= i < s.len() && (r == -1 || i < r) ==> s[i].hash != h
        }),
    decreases s.len() - from,
{
    if from < s.len() && s[from].hash != h {
        lemma_find_block(s, h, from + 1);
    }
}

pub proof fn lemma_find_chain_with(chains: Seq<ChainView>, h: BlockHash, from: int)
    requires
        0 <= from,
    ensures
        ({
            let r = find_chain_with(chains, h, from);
            &&& r == -1 || (from <= r < chains.len() && find_block(chains[r].blocks, h, 0) >= 0)
            &&& forall|i: int|
                from <= i < chains.len() && (r == -1 || i < r) ==> find_block(
                    #[trigger] chains[i].blocks,
                    h,
                    0,
                ) == -1
        }),
    decreases chains.len() - from,
{
    if from < chains.len() {
        lemma_find_block(chains[from].blocks, h, 0);
        if find_block(chains[from].blocks, h, 0) < 0 {
            lemma_find_chain_with(chains, h, from + 1);
        }
    }
}

pub proof fn lemma_find_chain_tip(chains: Seq<ChainView>, h: BlockHash, from: int)
    requires
        0 <= from,
    ensures
        ({
            let r = find_chain_tip(chains, h, from);
            &&& r == -1 || (from <= r < chains.len() && chains[r].blocks.len() > 0
                && chains[r].blocks.last().hash == h)
            &&& forall|i: int|
                from <= i < chains.len() && (r == -1 || i < r) ==> !(#[trigger] chains[i].blocks.len()
                    > 0 && chains[i].blocks.last().hash == h)
        }),
    decreases chains.len() - from,
{
    if from < chains.len() && !(chains[from].blocks.len() > 0 && chains[from].blocks.last().hash
        == h) {
        lemma_find_chain_tip(chains, h, from + 1);
    }
}

fn find_canon_index(c: &Vec<BlockNumHash>, h: &BlockHash) -> (r: Option<usize>)
    ensures
        match r {
            Some(k) => k as int == find_canon(c@, *h, 0) && k < c.len(),
            None => find_canon(c@, *h, 0) == -1,
        },
{
    let mut i: usize = 0;
    while i < c.len()
        invariant
            i <= c.len(),
            find_canon(c@, *h, 0) == find_canon(c@, *h, i as int),
        decreases c.len() - i,
    {
        if c[i].hash == *h {
            return Some(i);
        }
        i += 1;
    }
    None
}

fn find_block_index(s: &Vec<SealedBlock>, h: &BlockHash) -> (r: Option<usize>)
    ensures
        match r {
            Some(k) => k as int == find_block(s@, *h, 0) && k < s.len(),
            None => find_block(s@, *h, 0) == -1,
        },
{
    let mut i: usize = 0;
    while i < s.len()
        invariant
            i <= s.len(),
            find_block(s@, *h, 0) == find_block(s@, *h, i as int),
        decreases s.len() - i,
    {
        if s[i].hash == *h {
            return Some(i);
        }
        i += 1;
    }
    None
}

/// The canonical chain, the side chains and the buffer, with the finalized
/// block number.
pub struct BlockchainTree {
    canonical: Vec<BlockNumHash>,
    finalized: BlockNumber,
    chains: Vec<SideChain>,
    buffer: Vec<SealedBlock>,
    buffer_limit: usize,
    next_chain_id: u64,
}

impl View for BlockchainTree {
    type V = TreeView;

    closed spec fn view(&self) -> TreeView {
        TreeView {
            canonical: self.canonical@,
            finalized: self.finalized,
            chains: self.chains@.map_values(|c: SideChain| c@),
            buffer: self.buffer@,
            buffer_limit: self.buffer_limit,
            next_chain_id: self.next_chain_id,
        }
    }
}

impl BlockchainTree {
    /// A tree whose canonical chain ends at `tip`, with no side chains and an
    /// empty buffer that holds up to `buffer_limit` blocks.
    pub fn new(tip: BlockNumHash, finalized: BlockNumber, buffer_limit: usize) -> (r: Self)
        ensures
            r@ == (TreeView {
                canonical: seq![tip],
                finalized,
                chains: Seq::empty(),
                buffer: Seq::empty(),
                buffer_limit,
                next_chain_id: 0,
            }),
            tree_wf(r@),
    {
        let mut canonical: Vec<BlockNumHash> = Vec::new();
        canonical.push(tip);
        let r = BlockchainTree {
            canonical,
            finalized,
            chains: Vec::new(),
            buffer: Vec::new(),
            buffer_limit,
            next_chain_id: 0,
        };
        assert(r@.chains =~= Seq::<ChainView>::empty());
        assert(r@.canonical =~= seq![tip]);
        r
    }

    fn find_chain_with_index(&self, h: &BlockHash) -> (r: Option<usize>)
        ensures
            match r {
                Some(i) => i as int == find_chain_with(self@.chains, *h, 0) && i < self.chains.len()
                    && find_block(self@.chains[i as int].blocks, *h, 0) >= 0,
                None => find_chain_with(self@.chains, *h, 0) == -1,
            },
    {
        let ghost chains = self@.chains;
        let mut i: usize = 0;
        while i < self.chains.len()
            invariant
                i <= self.chains.len(),
                chains == self@.chains,
                find_chain_with(chains, *h, 0) == find_chain_with(chains, *h, i as int),
            decreases self.chains.len() - i,
        {
            if find_block_index(&self.chains[i].blocks, h).is_some() {
                return Some(i);
            }
            i += 1;
        }
        None
    }

    fn find_chain_tip_index(&self, h: &BlockHash) -> (r: Option<usize>)
        ensures
            match r {
                Some(i) => i as int == find_chain_tip(self@.chains, *h, 0) && i < self.chains.len(),
                None => find_chain_tip(self@.chains, *h, 0) == -1,
            },
    {
        let ghost chains = self@.chains;
        let mut i: usize = 0;
        while i < self.chains.len()
            invariant
                i <= self.chains.len(),
                chains == self@.chains,
                find_chain_tip(chains, *h, 0) == find_chain_tip(chains, *h, i as int),
            decreases self.chains.len() - i,
        {
            let blocks = &self.chains[i].blocks;
            if blocks.len() > 0 && blocks[blocks.len() - 1].hash == *h {
                return Some(i);
            }
            i += 1;
        }
        None
    }

    /// Whether a block with hash `h` is canonical, in a side chain or
    /// buffered.
    pub fn is_known(&self, h: &BlockHash) -> (r: bool)
        ensures
            r == spec_is_known(self@, *h),
    {
        find_canon_index(&self.canonical, h).is_some() || self.find_chain_with_index(h).is_some()
            || find_block_index(&self.buffer, h).is_some()
    }
    fn buffer_block(&mut self, block: SealedBlock)
        ensures
            final(self)@ == (TreeView {
                buffer: spec_buffer_push(old(self)@.buffer, old(self)@.buffer_limit, block),
                ..old(self)@
            }),
    {
        let ghost t0 = self@;
        if self.buffer.len() >= self.buffer_limit && self.buffer.len() > 0 {
            self.buffer.remove(0);
            assert(self.buffer@ =~= t0.buffer.drop_first());
        }
        self.buffer.push(block);
        assert(self@.chains =~= t0.chains);
    }

    /// Inserts `block`, given `checks`: the verdict of consensus validation,
    /// sender recovery and execution of the block on its parent's state.
    ///
    /// A block at or below the finalized number is rejected; a block whose
    /// parent is unknown waits in the buffer, and a failed verdict comes
    /// back with the block. Otherwise the block extends the side chain that
    /// ends in its parent, or starts a new side chain.
    pub fn insert_block(&mut self, block: SealedBlock, checks: Result<(), InsertBlockErrorKind>) -> (r:
        Result<InsertOutcome, InsertBlockError>)
        ensures
            final(self)@ == spec_insert(old(self)@, block, checks).0,
            tree_wf(old(self)@) ==> tree_wf(final(self)@),
            match r {
                Ok(o) => spec_insert(old(self)@, block, checks).1 == Ok::<
                    InsertOutcome,
                    InsertBlockErrorKind,
                >(o),
                Err(e) => spec_insert(old(self)@, block, checks).1 == Err::<
                    InsertOutcome,
                    InsertBlockErrorKind,
                >(e.spec_kind()) && e.spec_block() == block,
            },
    {
        let ghost t0 = self@;
        proof {
            if tree_wf(t0) {
                lemma_insert_keeps_wf(t0, block, checks);
            }
        }
        let p = block.header.parent_hash;
        if block.header.number <= self.finalized {
            return Err(
                InsertBlockError::tree_error(
                    BlockchainTreeError::PendingBlockIsFinalized { last_finalized: self.finalized },
                    block,
                ),
            );
        }
        if self.is_known(&block.hash) {
            return Ok(InsertOutcome::AlreadySeen);
        }
        let canon = find_canon_index(&self.canonical, &p);
        let with = self.find_chain_with_index(&p);
        if canon.is_none() && with.is_none() {
            self.buffer_block(block);
            return Ok(InsertOutcome::Buffered);
        }
        match checks {
            Err(kind) => {
                return Err(InsertBlockError::new(block, kind));
            },
            Ok(()) => {},
        }
        if canon.is_none() {
            if let Some(i) = self.find_chain_tip_index(&p) {
                let mut c = self.chains.remove(i);
                let chain_id = c.id;
                c.blocks.push(block);
                self.chains.insert(i, c);
                assert(self@.chains =~= t0.chains.update(
                    i as int,
                    ChainView { id: t0.chains[i as int].id, blocks: t0.chains[i as int].blocks.push(block) },
                ));
                return Ok(InsertOutcome::Attached { chain_id });
            }
        }
        if self.next_chain_id == u64::MAX {
            return Err(
                InsertBlockError::tree_error(
                    BlockchainTreeError::BlockSideChainIdConsistency { chain_id: self.next_chain_id },
                    block,
                ),
            );
        }
        let mut blocks: Vec<SealedBlock> = Vec::new();
        if canon.is_none() {
            let i = with.unwrap();
            let src = &self.chains[i].blocks;
            let j = find_block_index(src, &p).unwrap();
            let mut k: usize = 0;
            while k <= j
                invariant
                    j < src.len(),
                    k <= j + 1,
                    blocks@ =~= src@.subrange(0, k as int),
                decreases j + 1 - k,
            {
                blocks.push(src[k]);
                k += 1;
            }
        }
        blocks.push(block);
        assert(blocks@ =~= spec_fork_blocks(t0, block));
        let chain_id = self.next_chain_id;
        self.chains.push(SideChain { id: chain_id, blocks });
        self.next_chain_id = chain_id + 1;
        assert(self@.chains =~= t0.chains.push(
            ChainView { id: chain_id, blocks: spec_fork_blocks(t0, block) },
        ));
        Ok(InsertOutcome::Attached { chain_id })
    }

    /// Makes the block with hash `target` canonical.
    ///
    /// A canonical target is left alone. A target in a side chain joins the
    /// canonical chain with its ancestors in that chain; the canonical blocks
    /// after the fork block leave it, and every side chain is discarded. The
    /// outcome lists both sets for the store to apply.
    pub fn make_canonical(&mut self, target: BlockHash) -> (r: Result<CanonOutcome, CanonicalError>)
        ensures
            final(self)@ == spec_make_canonical(old(self)@, target).0,
            tree_wf(old(self)@) ==> tree_wf(final(self)@),
            match r {
                Ok(o) => spec_make_canonical(old(self)@, target).1 == Ok::<
                    CanonOutcomeView,
                    CanonicalError,
                >(o@),
                Err(e) => spec_make_canonical(old(self)@, target).1 == Err::<
                    CanonOutcomeView,
                    CanonicalError,
                >(e),
            },
    {
        let ghost t0 = self@;
        proof {
            if tree_wf(t0) {
                lemma_make_canonical_keeps_wf(t0, target);
            }
        }
        if find_canon_index(&self.canonical, &target).is_some() {
            return Ok(CanonOutcome::AlreadyCanonical);
        }
        let i = match self.find_chain_with_index(&target) {
            Some(i) => i,
            None => {
                return Err(
                    CanonicalError::BlockchainTree(
                        BlockchainTreeError::BlockHashNotFoundInChain { block_hash: target },
                    ),
                );
            },
        };
        let src = &self.chains[i].blocks;
        let j = find_block_index(src, &target).unwrap();
        let fork = src[0].header.parent_hash;
        let k = match find_canon_index(&self.canonical, &fork) {
            Some(k) => k,
            None => {
                return Err(
                    CanonicalError::BlockchainTree(
                        BlockchainTreeError::CanonicalChain { block_hash: fork },
                    ),
                );
            },
        };
        if self.canonical[k].number < self.finalized {
            return Err(
                CanonicalError::BlockchainTree(
                    BlockchainTreeError::PendingBlockIsFinalized { last_finalized: self.finalized },
                ),
            );
        }
        let ghost blocks = t0.chains[i as int].blocks;
        let mut committed: Vec<BlockNumHash> = Vec::new();
        let mut m: usize = 0;
        while m <= j
            invariant
                j < src.len(),
                src@ == blocks,
                m <= j + 1,
                committed@ =~= spec_num_hashes(blocks.subrange(0, m as int)),
            decreases j + 1 - m,
        {
            committed.push(src[m].num_hash());
            m += 1;
        }
        let mut reverted: Vec<BlockNumHash> = Vec::new();
        let mut n: usize = k + 1;
        while n < self.canonical.len()
            invariant
                k < self.canonical.len(),
                self.canonical@ == t0.canonical,
                k + 1 <= n <= self.canonical.len(),
                reverted@ =~= t0.canonical.subrange(k + 1, n as int),
            decreases self.canonical.len() - n,
        {
            reverted.push(self.canonical[n]);
            n += 1;
        }
        self.canonical.truncate(k + 1);
        assert(self@ == (TreeView { canonical: self@.canonical, ..t0 }));
        let mut q: usize = 0;
        while q < committed.len()
            invariant
                q <= committed.len(),
                k < t0.canonical.len(),
                self@ == (TreeView { canonical: self@.canonical, ..t0 }),
                self.canonical@ =~= t0.canonical.subrange(0, k + 1) + committed@.subrange(0, q as int),
            decreases committed.len() - q,
        {
            self.canonical.push(committed[q]);
            q += 1;
        }
        self.chains = Vec::new();
        assert(self@.chains =~= Seq::<ChainView>::empty());
        assert(committed@.subrange(0, committed@.len() as int) =~= committed@);
        Ok(CanonOutcome::Committed { reverted, committed })
    }

    /// Takes out of the buffer every block whose parent hash is `parent`, in
    /// buffer order. Once `parent` is in the tree, the caller validates these
    /// blocks and inserts them in turn.
    pub fn take_buffered_children(&mut self, parent: &BlockHash) -> (r: Vec<SealedBlock>)
        ensures
            r@ == spec_children(old(self)@.buffer, *parent),
            final(self)@ == (TreeView {
                buffer: spec_non_children(old(self)@.buffer, *parent),
                ..old(self)@
            }),
            tree_wf(old(self)@) ==> tree_wf(final(self)@),
    {
        let ghost t0 = self@;
        let mut kids: Vec<SealedBlock> = Vec::new();
        let mut rest: Vec<SealedBlock> = Vec::new();
        let mut i: usize = 0;
        while i < self.buffer.len()
            invariant
                self@ == t0,
                i <= self.buffer.len(),
                kids@ == spec_children(t0.buffer.subrange(0, i as int), *parent),
                rest@ == spec_non_children(t0.buffer.subrange(0, i as int), *parent),
            decreases self.buffer.len() - i,
        {
            let b = self.buffer[i];
            proof {
                let s = t0.buffer.subrange(0, i + 1);
                assert(s.drop_last() =~= t0.buffer.subrange(0, i as int));
                assert(s.last() == b);
                reveal(Seq::filter);
            }
            if b.header.parent_hash == *parent {
                kids.push(b);
            } else {
                rest.push(b);
            }
            i += 1;
        }
        assert(t0.buffer.subrange(0, i as int) =~= t0.buffer);
        self.buffer = rest;
        assert(self@.chains =~= t0.chains);
        kids
    }
    /// The last block of the canonical chain.
    pub fn canonical_tip(&self) -> (r: BlockNumHash)
        requires
            tree_wf(self@),
        ensures
            r == self@.canonical.last(),
    {
        self.canonical[self.canonical.len() - 1]
    }

    /// The canonical chain, oldest block first.
    pub fn canonical_chain(&self) -> (r: Vec<BlockNumHash>)
        ensures
            r@ == self@.canonical,
    {
        let mut r: Vec<BlockNumHash> = Vec::new();
        let mut i: usize = 0;
        while i < self.canonical.len()
            invariant
                i <= self.canonical.len(),
                r@ =~= self.canonical@.subrange(0, i as int),
            decreases self.canonical.len() - i,
        {
            r.push(self.canonical[i]);
            i += 1;
        }
        assert(r@ =~= self@.canonical);
        r
    }

    /// Whether the block with hash `h` is canonical.
    pub fn is_canonical(&self, h: &BlockHash) -> (r: bool)
        ensures
            r == (find_canon(self@.canonical, *h, 0) >= 0),
    {
        find_canon_index(&self.canonical, h).is_some()
    }

    /// The identifier of the first side chain that holds the block with
    /// hash `h`, if any does.
    pub fn side_chain_of(&self, h: &BlockHash) -> (r: Option<u64>)
        ensures
            r == (if find_chain_with(self@.chains, *h, 0) >= 0 {
                Some(self@.chains[find_chain_with(self@.chains, *h, 0)].id)
            } else {
                None::<u64>
            }),
    {
        match self.find_chain_with_index(h) {
            Some(i) => Some(self.chains[i].id),
            None => None,
        }
    }

    /// The identifiers of the side chains, in the order of their creation.
    pub fn side_chain_ids(&self) -> (r: Vec<u64>)
        ensures
            r@ == self@.chains.map_values(|c: ChainView| c.id),
    {
        let mut r: Vec<u64> = Vec::new();
        let mut i: usize = 0;
        while i < self.chains.len()
            invariant
                i <= self.chains.len(),
                r@ =~= self@.chains.subrange(0, i as int).map_values(|c: ChainView| c.id),
            decreases self.chains.len() - i,
        {
            r.push(self.chains[i].id);
            i += 1;
        }
        assert(self@.chains.subrange(0, i as int) =~= self@.chains);
        r
    }

    /// The blocks of the side chain with identifier `chain_id`, oldest
    /// first, if there is such a chain.
    pub fn side_chain_blocks(&self, chain_id: u64) -> (r: Option<Vec<BlockNumHash>>)
        ensures
            match r {
                Some(v) => exists|i: int|
                    0 <= i < self@.chains.len() && self@.chains[i].id == chain_id && v@
                        == spec_num_hashes(#[trigger] self@.chains[i].blocks),
                None => forall|i: int|
                    0 <= i < self@.chains.len() ==> #[trigger] self@.chains[i].id != chain_id,
            },
    {
        let mut i: usize = 0;
        while i < self.chains.len()
            invariant
                i <= self.chains.len(),
                forall|x: int| 0 <= x < i ==> #[trigger] self@.chains[x].id != chain_id,
            decreases self.chains.len() - i,
        {
            if self.chains[i].id == chain_id {
                let src = &self.chains[i].blocks;
                let mut v: Vec<BlockNumHash> = Vec::new();
                let mut j: usize = 0;
                while j < src.len()
                    invariant
                        j <= src.len(),
                        src@ == self@.chains[i as int].blocks,
                        v@ =~= spec_num_hashes(src@.subrange(0, j as int)),
                    decreases src.len() - j,
                {
                    v.push(src[j].num_hash());
                    j += 1;
                }
                assert(src@.subrange(0, j as int) =~= src@);
                return Some(v);
            }
            i += 1;
        }
        None
    }

    /// Whether the block with hash `h` waits in the buffer.
    pub fn is_buffered(&self, h: &BlockHash) -> (r: bool)
        ensures
            r == (find_block(self@.buffer, *h, 0) >= 0),
    {
        find_block_index(&self.buffer, h).is_some()
    }

    /// How many blocks wait in the buffer.
    pub fn buffered_count(&self) -> (r: usize)
        ensures
            r == self@.buffer.len(),
    {
        self.buffer.len()
    }

    /// The number of the last finalized block.
    pub fn finalized_block_number(&self) -> (r: BlockNumber)
        ensures
            r == self@.finalized,
    {
        self.finalized
    }
    fn copy_blocks(v: &Vec<SealedBlock>) -> (r: Vec<SealedBlock>)
        ensures
            r@ == v@,
    {
        let mut r: Vec<SealedBlock> = Vec::new();
        let mut i: usize = 0;
        while i < v.len()
            invariant
                i <= v.len(),
                r@ =~= v@.subrange(0, i as int),
            decreases v.len() - i,
        {
            r.push(v[i]);
            i += 1;
        }
        assert(v@.subrange(0, i as int) =~= v@);
        r
    }

    /// Raises the finalized block number to `number` (a lower number changes
    /// nothing), pruning the side chains that fork off at or below it and
    /// evicting the buffered blocks at or below it.
    pub fn set_finalized(&mut self, number: BlockNumber)
        ensures
            final(self)@ == spec_finalize(old(self)@, number),
            tree_wf(old(self)@) ==> tree_wf(final(self)@),
    {
        let ghost t0 = self@;
        proof {
            if tree_wf(t0) {
                lemma_finalize_keeps_wf(t0, number);
            }
        }
        let f = if number > self.finalized {
            number
        } else {
            self.finalized
        };
        let mut chains: Vec<SideChain> = Vec::new();
        let mut i: usize = 0;
        while i < self.chains.len()
            invariant
                self@ == t0,
                i <= self.chains.len(),
                chains@.map_values(|c: SideChain| c@) =~= spec_kept_chains(t0.chains.subrange(0, i as int), f),
            decreases self.chains.len() - i,
        {
            let c = &self.chains[i];
            let ghost before = chains@.map_values(|c: SideChain| c@);
            proof {
                let s = t0.chains.subrange(0, i + 1);
                assert(s.drop_last() =~= t0.chains.subrange(0, i as int));
                assert(s.last() == c@);
                reveal(Seq::filter);
                assert(spec_kept_chains(s, f) == if spec_chain_above(c@, f) {
                    before.push(c@)
                } else {
                    before
                });
            }
            if c.blocks.len() > 0 && c.blocks[0].header.number > f {
                let copy = SideChain { id: c.id, blocks: Self::copy_blocks(&c.blocks) };
                assert(copy@ == c@);
                chains.push(copy);
                assert(chains@.map_values(|c: SideChain| c@) =~= before.push(c@));
            }
            i += 1;
        }
        assert(t0.chains.subrange(0, i as int) =~= t0.chains);
        let mut buffer: Vec<SealedBlock> = Vec::new();
        let mut j: usize = 0;
        while j < self.buffer.len()
            invariant
                self@ == t0,
                j <= self.buffer.len(),
                buffer@ == spec_kept_blocks(t0.buffer.subrange(0, j as int), f),
            decreases self.buffer.len() - j,
        {
            let b = self.buffer[j];
            let ghost before = buffer@;
            proof {
                let s = t0.buffer.subrange(0, j + 1);
                assert(s.drop_last() =~= t0.buffer.subrange(0, j as int));
                assert(s.last() == b);
                reveal(Seq::filter);
                assert(spec_kept_blocks(s, f) == if b.header.number > f {
                    before.push(b)
                } else {
                    before
                });
            }
            if b.header.number > f {
                buffer.push(b);
            }
            j += 1;
        }
        assert(t0.buffer.subrange(0, j as int) =~= t0.buffer);
        self.chains = chains;
        self.buffer = buffer;
        self.finalized = f;
        assert(self@.chains =~= spec_finalize(t0, number).chains);
        assert(self@.buffer =~= spec_finalize(t0, number).buffer);
    }
}

} // verus!
