//! Blocks and proof-of-work mining.
//!
//! A block's content hash is the SHA-256 digest, in hex, of the canonical
//! concatenation of its index, timestamp, record, previous hash and nonce,
//! in that fixed order. Mining searches nonces from zero upward and stops at
//! the first one whose hash carries the required number of leading `'0'`
//! characters.

use vstd::prelude::*;
use crate::digits::dec_rep;
use crate::digits::hex_rep;
use crate::digits::u64_to_dec;
use crate::digits::u64_to_hex;
use crate::hashing::is_lower_hex_digit;
use crate::hashing::now_epoch_seconds;
use crate::hashing::sha256_hex;
use crate::hashing::sha256_hex_of;
use crate::record::BookCheckout;
use crate::record::BookCheckoutView;
use crate::record::genesis_record;
use crate::record::record_repr;

verus! {

/// One proof-of-work-sealed block of the chain.
pub struct Block {
    pub index: usize,
    pub hash: String,
    pub previous_hash: String,
    pub nonce: String,
    pub data: BookCheckout,
    pub timestamp: u64,
}

/// The mathematical value of a `Block`.
pub struct BlockView {
    pub index: nat,
    pub hash: Seq<char>,
    pub previous_hash: Seq<char>,
    pub nonce: Seq<char>,
    pub data: BookCheckoutView,
    pub timestamp: nat,
}

impl View for Block {
    type V = BlockView;

    open spec fn view(&self) -> BlockView {
        BlockView {
            index: self.index as nat,
            hash: self.hash@,
            previous_hash: self.previous_hash@,
            nonce: self.nonce@,
            data: self.data@,
            timestamp: self.timestamp as nat,
        }
    }
}

/// The canonical pre-image of a content hash: index and timestamp in
/// decimal, the record in its canonical form, then the previous hash and
/// the nonce, concatenated in that fixed order. The stored hash itself is
/// not part of it.
pub open spec fn content_parts(
    index: nat,
    timestamp: nat,
    data: BookCheckoutView,
    previous_hash: Seq<char>,
    nonce: Seq<char>,
) -> Seq<char> {
    dec_rep(index) + dec_rep(timestamp) + record_repr(data) + previous_hash + nonce
}

/// The pre-image of a block's own content hash.
pub open spec fn block_content(b: BlockView) -> Seq<char> {
    content_parts(b.index, b.timestamp, b.data, b.previous_hash, b.nonce)
}

/// A block is self-consistent when its stored hash is the digest of its
/// own content.
pub open spec fn block_self_consistent(b: BlockView) -> bool {
    b.hash == sha256_hex(block_content(b))
}

/// The difficulty predicate: the string's first `d` characters exist and
/// are all `'0'`. Difficulty zero holds of every string.
pub open spec fn meets_difficulty(h: Seq<char>, d: nat) -> bool {
    d <= h.len() && forall|i: int| 0 <= i < d ==> h[i] == '0'
}

/// The pre-image that mining hashes for nonce value `n`: the block fields
/// with the nonce in its hexadecimal form.
pub open spec fn nonce_content(
    index: nat,
    timestamp: nat,
    data: BookCheckoutView,
    previous_hash: Seq<char>,
    n: nat,
) -> Seq<char> {
    content_parts(index, timestamp, data, previous_hash, hex_rep(n))
}

/// Whether nonce value `n` wins the search: its content hash meets the
/// difficulty.
pub open spec fn nonce_passes(
    index: nat,
    timestamp: nat,
    data: BookCheckoutView,
    previous_hash: Seq<char>,
    difficulty: nat,
    n: nat,
) -> bool {
    meets_difficulty(sha256_hex(nonce_content(index, timestamp, data, previous_hash, n)), difficulty)
}

/// Whether any nonce in the search space wins for these fields.
pub open spec fn some_nonce_passes(
    index: nat,
    timestamp: nat,
    data: BookCheckoutView,
    previous_hash: Seq<char>,
    difficulty: nat,
) -> bool {
    exists|n: nat|
        n < u64::MAX && #[trigger] nonce_passes(index, timestamp, data, previous_hash, difficulty, n)
}

/// Everything mining promises of its result. The block carries the given
/// fields and a stored hash that is always the digest of its own content.
/// Either the nonce is the least winning one -- every smaller nonce fails --
/// or the whole search space was exhausted and the block carries the last
/// tried nonce with its (losing) hash.
pub open spec fn mining_outcome(
    b: BlockView,
    index: nat,
    data: BookCheckoutView,
    previous_hash: Seq<char>,
    difficulty: nat,
) -> bool {
    &&& b.index == index
    &&& b.previous_hash == previous_hash
    &&& b.data == data
    &&& b.hash == sha256_hex(block_content(b))
    &&& ((exists|k: nat|
        k < u64::MAX && b.nonce == hex_rep(k) && #[trigger] nonce_passes(
            index,
            b.timestamp,
            data,
            previous_hash,
            difficulty,
            k,
        ) && (forall|m: nat|
            m < k ==> !nonce_passes(index, b.timestamp, data, previous_hash, difficulty, m))) || (
    b.nonce == hex_rep((u64::MAX - 1) as nat) && (forall|n: nat|
        n < u64::MAX ==> !nonce_passes(index, b.timestamp, data, previous_hash, difficulty, n))))
}

impl Block {
    /// Mines a block: the timestamp is read once, then nonces are tried
    /// from zero upward, in their hexadecimal form, stopping at the first
    /// whose content hash meets the difficulty. If the whole search space
    /// is exhausted -- which a positive difficulty can in principle force,
    /// since nothing is known of the digest's values -- the block of the
    /// last tried nonce is returned, carrying that nonce's hash even though
    /// it fails the difficulty. The stored hash is the digest of the
    /// block's own content in every case.
    pub fn new(index: usize, previous_hash: String, difficulty: usize, checkout_item: BookCheckout) -> (b: Block)
        ensures
            b@.index == index as nat,
            b@.previous_hash == previous_hash@,
            b@.data == checkout_item@,
            b@.hash == sha256_hex(block_content(b@)),
            mining_outcome(b@, index as nat, checkout_item@, previous_hash@, difficulty as nat),
            some_nonce_passes(index as nat, b@.timestamp, checkout_item@, previous_hash@, difficulty as nat)
                ==> meets_difficulty(b@.hash, difficulty as nat),
    {
        let ghost prev_view: Seq<char> = previous_hash@;
        let ghost data_view: BookCheckoutView = checkout_item@;
        let ghost ixn: nat = index as nat;
        let ghost dif: nat = difficulty as nat;
        let mut block = Block {
            index,
            previous_hash,
            timestamp: now_epoch_seconds(),
            data: checkout_item,
            hash: String::new(),
            nonce: String::new(),
        };
        let ghost ts: nat = block@.timestamp;
        let mut i: u64 = 0;
        while i < u64::MAX
            invariant
                prev_view == previous_hash@,
                data_view == checkout_item@,
                ixn == index as nat,
                dif == difficulty as nat,
                block@.index == ixn,
                block@.previous_hash == prev_view,
                block@.data == data_view,
                block@.timestamp == ts,
                forall|m: nat| m < i ==> !nonce_passes(ixn, ts, data_view, prev_view, dif, m),
                i > 0 ==> block@.nonce == hex_rep((i - 1) as nat),
                i > 0 ==> block@.hash == sha256_hex(block_content(block@)),
            decreases u64::MAX - i,
        {
            block.nonce = u64_to_hex(i);
            let h = block.hash();
            let passes = Self::validate_hash(h.as_str(), difficulty);
            block.hash = h;
            proof {
                assert(block_content(block@) =~= nonce_content(ixn, ts, data_view, prev_view, i as nat));
            }
            if passes {
                proof {
                    assert(nonce_passes(ixn, ts, data_view, prev_view, dif, i as nat));
                }
                return block;
            }
            proof {
                assert(!nonce_passes(ixn, ts, data_view, prev_view, dif, i as nat));
                assert forall|m: nat| m < i + 1 implies !nonce_passes(
                    ixn,
                    ts,
                    data_view,
                    prev_view,
                    dif,
                    m,
                ) by {
                    if m < i {
                    } else {
                        assert(m == i);
                    }
                }
            }
            i = i + 1;
        }
        block
    }

    /// The genesis block: index zero, empty previous hash, the genesis
    /// record as payload, mined at the fixed difficulty of one.
    pub fn genesis() -> (b: Block)
        ensures
            b@.index == 0,
            b@.previous_hash == Seq::<char>::empty(),
            b@.data == genesis_record(),
            b@.hash == sha256_hex(block_content(b@)),
            mining_outcome(b@, 0, genesis_record(), Seq::<char>::empty(), 1),
            some_nonce_passes(0, b@.timestamp, genesis_record(), Seq::<char>::empty(), 1)
                ==> meets_difficulty(b@.hash, 1),
    {
        let data = BookCheckout::new_genesis();
        let b = Self::new(0, String::new(), 1, data);
        proof {
            assert(b@.previous_hash =~= Seq::<char>::empty());
        }
        b
    }

    /// Builds the canonical pre-image of this block's content hash.
    pub fn content(&self) -> (r: String)
        ensures
            r@ == block_content(self@),
    {
        let mut s = u64_to_dec(self.index as u64);
        let ts = u64_to_dec(self.timestamp);
        s.append(ts.as_str());
        let rep = self.data.repr();
        s.append(rep.as_str());
        s.append(self.previous_hash.as_str());
        s.append(self.nonce.as_str());
        proof {
            assert(s@ =~= block_content(self@));
        }
        s
    }

    /// Recomputes this block's content hash from its current field values.
    pub fn hash(&self) -> (r: String)
        ensures
            r@ == sha256_hex(block_content(self@)),
            r@.len() == 64,
            forall|i: int| 0 <= i < r@.len() ==> is_lower_hex_digit(#[trigger] r@[i]),
    {
        let c = self.content();
        sha256_hex_of(c.as_str())
    }

    /// Decides the difficulty predicate on a hash string.
    pub fn validate_hash(hash: &str, difficulty: usize) -> (r: bool)
        ensures
            r == meets_difficulty(hash@, difficulty as nat),
    {
        let n = hash.unicode_len();
        if n < difficulty {
            return false;
        }
        let mut i: usize = 0;
        while i < difficulty
            invariant
                i <= difficulty,
                difficulty <= n,
                n == hash@.len(),
                forall|j: int| 0 <= j < i ==> hash@[j] == '0',
            decreases difficulty - i,
        {
            if hash.get_char(i) != '0' {
                return false;
            }
            i = i + 1;
        }
        true
    }
}

/// The content hash depends on the five content fields alone: two blocks
/// that agree on index, timestamp, record, previous hash and nonce have the
/// same content and therefore the same digest, on every call and every run.
pub proof fn lemma_hash_deterministic(a: BlockView, b: BlockView)
    requires
        a.index == b.index,
        a.timestamp == b.timestamp,
        a.data == b.data,
        a.previous_hash == b.previous_hash,
        a.nonce == b.nonce,
    ensures
        sha256_hex(block_content(a)) == sha256_hex(block_content(b)),
{
    assert(block_content(a) == block_content(b));
}

} // verus!
