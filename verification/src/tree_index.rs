//! Index arithmetic of a complete binary tree stored as a flat array: the
//! root is at index 0 and the children of node `i` are at `2 * i + 1` and
//! `2 * i + 2`. The depth of a tree is the number of edges from the root to
//! a leaf.

use vstd::arithmetic::power2::{
    lemma2_to64, lemma2_to64_rest, lemma_pow2_pos, lemma_pow2_strictly_increases,
    lemma_pow2_unfold, pow2,
};
use vstd::bits::lemma_usize_shl_is_mul;
use vstd::prelude::*;

verus! {

/// Number of nodes of a tree of the given depth: `2^(depth + 1) - 1`.
pub open spec fn tree_len(depth: nat) -> nat {
    (pow2(depth + 1) - 1) as nat
}

/// Number of nodes that have children in a tree of the given depth:
/// `2^depth - 1`. They are the nodes at the indices below this number; the
/// leaves follow them.
pub open spec fn internal_count(depth: nat) -> nat {
    (pow2(depth) - 1) as nat
}

/// Index of the parent of node `index`, for any node but the root.
pub open spec fn parent(index: nat) -> nat
    recommends
        index > 0,
{
    ((index - 1) / 2) as nat
}

/// A tree has one node more than twice its internal nodes.
pub proof fn lemma_tree_len_from_internal(depth: nat)
    ensures
        tree_len(depth) == 2 * internal_count(depth) + 1,
        internal_count(depth) < tree_len(depth),
{
    lemma_pow2_unfold(depth + 1);
    lemma_pow2_pos(depth);
}

/// The trees whose size fits in `usize` are those of a depth below the
/// number of bits of `usize`.
pub proof fn lemma_tree_len_fits(depth: nat)
    ensures
        tree_len(depth) <= usize::MAX <==> depth < usize::BITS,
{
    lemma2_to64();
    lemma2_to64_rest();
    let bits = usize::BITS as nat;
    assert(pow2(bits) == usize::MAX + 1);
    if depth < bits {
        if depth + 1 < bits {
            lemma_pow2_strictly_increases(depth + 1, bits);
        }
    } else {
        lemma_pow2_strictly_increases(bits, depth + 1);
    }
}

/// Whether the size of a tree of this depth fits in `usize`.
pub fn depth_supported(depth: u8) -> (ok: bool)
    ensures
        ok == (depth < usize::BITS),
        ok == (tree_len(depth as nat) <= usize::MAX),
{
    proof {
        lemma_tree_len_fits(depth as nat);
    }
    (depth as u32) < usize::BITS
}

/// The number of internal nodes of a tree of the given depth, which is also
/// the index of its first leaf.
pub fn internal_node_count(depth: u8) -> (count: usize)
    requires
        depth < usize::BITS,
    ensures
        count == internal_count(depth as nat),
        2 * count + 1 == tree_len(depth as nat),
{
    proof {
        lemma_tree_len_fits(depth as nat);
        lemma_tree_len_from_internal(depth as nat);
        lemma_pow2_pos(depth as nat);
        lemma_usize_shl_is_mul(1usize, depth as usize);
    }
    (1usize << (depth as usize)) - 1
}

} // verus!
