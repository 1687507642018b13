//! The chain: an append-only sequence of blocks behind a genesis block.
//!
//! A chain is valid when every block's stored hash recomputes to itself and
//! every block past the first carries the hash of its predecessor. Appending
//! mines a candidate at the chain's difficulty and admits it only after the
//! linkage and self-consistency checks pass.

use vstd::prelude::*;
use crate::block::Block;
use crate::block::BlockView;
use crate::block::block_content;
use crate::block::block_self_consistent;
use crate::block::meets_difficulty;
use crate::block::mining_outcome;
use crate::block::some_nonce_passes;
use crate::hashing::sha256_hex;
use crate::record::BookCheckout;
use crate::record::genesis_record;

verus! {

/// Every block past the first carries the hash of its predecessor.
pub open spec fn linked(c: Seq<BlockView>) -> bool {
    forall|i: int| 0 < i < c.len() ==> c[i].previous_hash == c[i - 1].hash
}

/// A chain is valid when it is linked and every block is self-consistent.
pub open spec fn chain_valid(c: Seq<BlockView>) -> bool {
    linked(c) && forall|i: int| 0 <= i < c.len() ==> block_self_consistent(c[i])
}

/// What admits a candidate block: its index follows the last block's, its
/// previous hash is the last block's stored hash, and its stored hash
/// recomputes to itself.
pub open spec fn candidate_ok(c: Seq<BlockView>, b: BlockView) -> bool
    recommends
        c.len() > 0,
{
    c.last().index + 1 == b.index && c.last().hash == b.previous_hash && block_self_consistent(b)
}

/// The append-only ledger: blocks from the genesis onward, and the
/// difficulty that every appended block is mined at.
pub struct Blockchain {
    chain: Vec<Block>,
    difficulty: usize,
}

impl Blockchain {
    /// The blocks, as mathematical values, in position order.
    pub closed spec fn blocks(&self) -> Seq<BlockView> {
        self.chain@.map_values(|b: Block| b@)
    }

    /// The difficulty the chain was created with.
    pub closed spec fn spec_difficulty(&self) -> usize {
        self.difficulty
    }

    /// The chain's structural invariant: the genesis block is present and
    /// block indices are contiguous from zero.
    pub open spec fn wf(&self) -> bool {
        self.blocks().len() >= 1 && forall|i: int|
            0 <= i < self.blocks().len() ==> self.blocks()[i].index == i
    }

    /// Creates a chain holding only the freshly mined genesis block and
    /// stores the difficulty for later appends. The result is always a
    /// valid chain; the genesis hash carries its leading zero whenever any
    /// nonce at all can win at difficulty one.
    pub fn new(difficulty: usize) -> (c: Blockchain)
        ensures
            c.wf(),
            c.spec_difficulty() == difficulty,
            c.blocks().len() == 1,
            c.blocks()[0].index == 0,
            c.blocks()[0].previous_hash == Seq::<char>::empty(),
            c.blocks()[0].data == genesis_record(),
            block_self_consistent(c.blocks()[0]),
            chain_valid(c.blocks()),
            mining_outcome(c.blocks()[0], 0, genesis_record(), Seq::<char>::empty(), 1),
            some_nonce_passes(0, c.blocks()[0].timestamp, genesis_record(), Seq::<char>::empty(), 1)
                ==> meets_difficulty(c.blocks()[0].hash, 1),
    {
        let mut chain: Vec<Block> = Vec::new();
        let genesis = Block::genesis();
        chain.push(genesis);
        let c = Blockchain { chain, difficulty };
        proof {
            assert(c.blocks() =~= seq![c.chain@[0]@]);
        }
        c
    }

    /// How many blocks the chain holds.
    pub fn len(&self) -> (n: usize)
        ensures
            n == self.blocks().len(),
    {
        self.chain.len()
    }

    /// The block at a position.
    pub fn block(&self, i: usize) -> (b: &Block)
        requires
            i < self.blocks().len(),
        ensures
            b@ == self.blocks()[i as int],
    {
        &self.chain[i]
    }

    /// Mines a candidate carrying `data` after the current last block --
    /// its index one past the last block's, its previous hash the last
    /// block's recomputed content hash -- and appends it if it passes
    /// `block_is_valid`. The append succeeds exactly when the last block is
    /// self-consistent (every chain this library builds keeps it so); a
    /// rejected candidate leaves the chain unchanged. Appending never
    /// breaks a valid chain, and on a valid chain it always grows it.
    pub fn add_block(&mut self, data: BookCheckout)
        requires
            old(self).wf(),
        ensures
            final(self).wf(),
            final(self).spec_difficulty() == old(self).spec_difficulty(),
            !block_self_consistent(old(self).blocks().last()) ==> final(self).blocks() == old(
                self,
            ).blocks(),
            block_self_consistent(old(self).blocks().last()) ==> final(self).blocks().len() == old(
                self,
            ).blocks().len() + 1,
            block_self_consistent(old(self).blocks().last()) ==> final(self).blocks().subrange(
                0,
                old(self).blocks().len() as int,
            ) == old(self).blocks(),
            block_self_consistent(old(self).blocks().last()) ==> candidate_ok(
                old(self).blocks(),
                final(self).blocks().last(),
            ),
            block_self_consistent(old(self).blocks().last()) ==> final(self).blocks().last().data
                == data@,
            block_self_consistent(old(self).blocks().last()) ==> mining_outcome(
                final(self).blocks().last(),
                old(self).blocks().last().index + 1,
                data@,
                old(self).blocks().last().hash,
                old(self).spec_difficulty() as nat,
            ),
            block_self_consistent(old(self).blocks().last()) && some_nonce_passes(
                old(self).blocks().last().index + 1,
                final(self).blocks().last().timestamp,
                data@,
                old(self).blocks().last().hash,
                old(self).spec_difficulty() as nat,
            ) ==> meets_difficulty(
                final(self).blocks().last().hash,
                old(self).spec_difficulty() as nat,
            ),
            chain_valid(old(self).blocks()) ==> chain_valid(final(self).blocks()),
            chain_valid(old(self).blocks()) ==> final(self).blocks().len() == old(
                self,
            ).blocks().len() + 1,
    {
        let n = self.chain.len();
        proof {
            assert(self.blocks()[n - 1] == self.chain@[n - 1]@);
            assert(self.blocks()[n - 1].index == n - 1);
            assert(self.blocks().last() == self.blocks()[n - 1]);
            if chain_valid(self.blocks()) {
                assert(block_self_consistent(self.blocks()[n - 1]));
            }
        }
        let prev_hash = self.chain[n - 1].hash();
        let idx = self.chain[n - 1].index + 1;
        let block = Block::new(idx, prev_hash, self.difficulty, data);
        let accept = self.block_is_valid(&block);
        proof {
            if block_self_consistent(old(self).blocks().last()) {
                assert(old(self).blocks().last().hash == sha256_hex(
                    block_content(old(self).blocks().last()),
                ));
                assert(block@.previous_hash == old(self).blocks().last().hash);
                assert(candidate_ok(old(self).blocks(), block@));
            }
        }
        if accept {
            let ghost pre = self.blocks();
            self.chain.push(block);
            proof {
                assert(self.blocks() =~= pre.push(block@));
                assert(self.blocks().subrange(0, pre.len() as int) =~= pre);
                if chain_valid(pre) {
                    lemma_append_keeps_valid(pre, block@);
                }
            }
        }
    }

    /// Walks the chain in position order and decides validity: linkage for
    /// every block past the first, recomputed content hash against the
    /// stored hash for every block.
    pub fn is_chain_valid(&self) -> (r: bool)
        ensures
            r == chain_valid(self.blocks()),
    {
        let n = self.chain.len();
        let mut i: usize = 0;
        while i < n
            invariant
                n == self.blocks().len(),
                i <= n,
                forall|j: int| 0 < j < i ==> self.blocks()[j].previous_hash == self.blocks()[j
                    - 1].hash,
                forall|j: int| 0 <= j < i ==> block_self_consistent(self.blocks()[j]),
            decreases n - i,
        {
            proof {
                assert(self.blocks()[i as int] == self.chain@[i as int]@);
                if i > 0 {
                    assert(self.blocks()[i - 1] == self.chain@[i - 1]@);
                }
            }
            if i > 0 && !(self.chain[i].previous_hash == self.chain[i - 1].hash) {
                proof {
                    assert(self.blocks()[i as int].previous_hash != self.blocks()[i - 1].hash);
                    assert(!linked(self.blocks()));
                }
                return false;
            }
            let recomputed = self.chain[i].hash();
            if !(recomputed == self.chain[i].hash) {
                proof {
                    assert(!block_self_consistent(self.blocks()[i as int]));
                }
                return false;
            }
            i = i + 1;
        }
        true
    }

    /// Decides whether a candidate may follow the current last block:
    /// consecutive index, previous hash equal to the last block's stored
    /// hash, and a stored hash that recomputes to itself. Reads only; the
    /// chain is left unchanged.
    pub fn block_is_valid(&mut self, new_block: &Block) -> (r: bool)
        requires
            old(self).wf(),
        ensures
            *final(self) == *old(self),
            r == candidate_ok(old(self).blocks(), new_block@),
            r ==> new_block@.hash.len() == 64,
    {
        let n = self.chain.len();
        proof {
            assert(self.blocks()[n - 1] == self.chain@[n - 1]@);
            assert(self.blocks()[n - 1].index == n - 1);
            assert(self.blocks().last() == self.blocks()[n - 1]);
        }
        let prev_block = &self.chain[n - 1];
        let idx_ok = prev_block.index + 1 == new_block.index;
        let link_ok = prev_block.hash == new_block.previous_hash;
        let recomputed = new_block.hash();
        let hash_ok = recomputed == new_block.hash;
        idx_ok && link_ok && hash_ok
    }
}

/// Appending keeps a chain valid: a self-consistent block whose previous
/// hash is the last block's hash extends a valid chain into a valid chain.
pub proof fn lemma_append_keeps_valid(c: Seq<BlockView>, b: BlockView)
    requires
        chain_valid(c),
        c.len() > 0,
        b.previous_hash == c.last().hash,
        block_self_consistent(b),
    ensures
        chain_valid(c.push(b)),
{
    let c2 = c.push(b);
    assert forall|i: int| 0 < i < c2.len() implies c2[i].previous_hash == c2[i - 1].hash by {
        if i < c.len() {
            assert(c2[i] == c[i]);
            assert(c2[i - 1] == c[i - 1]);
        } else {
            assert(c2[i] == b);
            assert(c2[i - 1] == c.last());
        }
    }
    assert forall|i: int| 0 <= i < c2.len() implies block_self_consistent(c2[i]) by {
        if i < c.len() {
            assert(c2[i] == c[i]);
        } else {
            assert(c2[i] == b);
        }
    }
}

/// In a valid chain, every block past the first carries the hash of its
/// predecessor.
pub proof fn lemma_linkage(c: Seq<BlockView>, i: int)
    requires
        chain_valid(c),
        0 < i < c.len(),
    ensures
        c[i].previous_hash == c[i - 1].hash,
{
}

/// A candidate whose previous hash differs from the last block's stored
/// hash is never admitted, whatever its other fields hold.
pub proof fn lemma_forged_previous_rejected(c: Seq<BlockView>, b: BlockView)
    requires
        c.len() > 0,
        b.previous_hash != c.last().hash,
    ensures
        !candidate_ok(c, b),
{
}

} // verus!
