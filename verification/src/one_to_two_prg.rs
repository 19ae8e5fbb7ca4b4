//! The doubling generator: two AES-128 ciphers whose keys are derived from
//! one seed, the expansion of a seed into a pair of seeds, and the expansion
//! of a seed into a tree of seeds.

use vstd::arithmetic::power2::{lemma2_to64, lemma_pow2_pos, lemma_pow2_unfold, pow2};
use vstd::prelude::*;

use crate::aes128::{aes128_encrypt, encrypt_block};
use crate::seed::{constant_block, SeedU8x16, SEED_BYTE_LEN};
use crate::tree_index::{
    internal_count, internal_node_count, lemma_tree_len_fits, lemma_tree_len_from_internal,
    parent, tree_len,
};

verus! {

/// Byte that fills the block from which the key of branch 0 is derived.
pub const BRANCH_0_FILL: u8 = 0xFF;

/// Byte that fills the block from which the key of branch 1 is derived.
pub const BRANCH_1_FILL: u8 = 0xFE;

/// What a generator is: the keys of its two ciphers, one for each branch.
pub struct BranchKeys {
    pub key_0: Seq<u8>,
    pub key_1: Seq<u8>,
}

/// The branch keys that a seed gives: the encryptions, under the seed as
/// key, of the two constant blocks.
pub open spec fn derive_keys(seed: Seq<u8>) -> BranchKeys {
    BranchKeys {
        key_0: aes128_encrypt(seed, constant_block(BRANCH_0_FILL)),
        key_1: aes128_encrypt(seed, constant_block(BRANCH_1_FILL)),
    }
}

/// The pair that a seed expands to: its encryption under the key of branch
/// 0, and its encryption under the key of branch 1.
pub open spec fn double(keys: BranchKeys, seed: Seq<u8>) -> (Seq<u8>, Seq<u8>) {
    (aes128_encrypt(keys.key_0, seed), aes128_encrypt(keys.key_1, seed))
}

/// The seed at `index` in the tree grown from `root`: the root itself at
/// index 0, and elsewhere the half that falls to this node when the seed of
/// its parent is expanded, the first half at an odd index and the second at
/// an even one.
pub open spec fn node(keys: BranchKeys, root: Seq<u8>, index: nat) -> Seq<u8>
    decreases index,
{
    if index == 0 {
        root
    } else if index % 2 == 1 {
        double(keys, node(keys, root, parent(index))).0
    } else {
        double(keys, node(keys, root, parent(index))).1
    }
}

/// The tree of the given depth grown from `root`, as a flat array.
pub open spec fn ggm_tree(keys: BranchKeys, root: Seq<u8>, depth: nat) -> Seq<Seq<u8>> {
    Seq::new(tree_len(depth), |index: int| node(keys, root, index as nat))
}

/// The seeds of a tree, each as its sequence of bytes.
pub open spec fn seeds_view(seeds: Seq<SeedU8x16>) -> Seq<Seq<u8>> {
    Seq::new(seeds.len(), |index: int| seeds[index]@)
}

/// A doubling generator. It holds the keys of its two ciphers, which differ.
pub struct OneToTwoPRG {
    key_0: SeedU8x16,
    key_1: SeedU8x16,
}

impl View for OneToTwoPRG {
    type V = BranchKeys;

    closed spec fn view(&self) -> BranchKeys {
        BranchKeys { key_0: self.key_0@, key_1: self.key_1@ }
    }
}

impl OneToTwoPRG {
    #[verifier::type_invariant]
    spec fn keys_differ(self) -> bool {
        self.key_0@ != self.key_1@
    }

    /// Derives the two branch keys from `key`.
    pub fn new(key: &SeedU8x16) -> (prg: OneToTwoPRG)
        ensures
            prg@ == derive_keys(key@),
            prg@.key_0 != prg@.key_1,
    {
        let block_0: SeedU8x16 = [BRANCH_0_FILL; SEED_BYTE_LEN];
        let block_1: SeedU8x16 = [BRANCH_1_FILL; SEED_BYTE_LEN];
        let key_0 = encrypt_block(key, &block_0);
        let key_1 = encrypt_block(key, &block_1);
        proof {
            assert(block_0@ =~= constant_block(BRANCH_0_FILL));
            assert(block_1@ =~= constant_block(BRANCH_1_FILL));
            assert(block_0@[0] != block_1@[0]);
        }
        OneToTwoPRG { key_0, key_1 }
    }

    /// Expands `seed` into two seeds, one under each branch key.
    pub fn generate_double(&self, seed: &SeedU8x16) -> (pair: (SeedU8x16, SeedU8x16))
        ensures
            (pair.0@, pair.1@) == double(self@, seed@),
    {
        (encrypt_block(&self.key_0, seed), encrypt_block(&self.key_1, seed))
    }

    /// Grows the tree of the given depth from `seed`: the seed at the root,
    /// and at the two children of every internal node the pair that the
    /// node's seed expands to.
    ///
    /// The depth must be below the number of bits of `usize`: those are the
    /// depths at which the size of the tree fits in `usize`
    /// (`lemma_tree_len_fits`), and `depth_supported` tests for them.
    pub fn generate_ggm_tree(&self, seed: &SeedU8x16, depth: u8) -> (tree: Vec<SeedU8x16>)
        requires
            depth < usize::BITS,
        ensures
            seeds_view(tree@) == ggm_tree(self@, seed@, depth as nat),
            tree.len() == tree_len(depth as nat),
            tree[0] == *seed,
            depth == 0 ==> tree@ == seq![*seed],
            forall|i: int|
                0 <= i < internal_count(depth as nat) ==> (tree[2 * i + 1]@, tree[2 * i + 2]@)
                    == double(self@, (#[trigger] tree[i])@),
    {
        let internal: usize = internal_node_count(depth);
        proof {
            lemma_tree_len_fits(depth as nat);
        }
        let len: usize = 2 * internal + 1;
        let mut tree: Vec<SeedU8x16> = vec![[0u8; SEED_BYTE_LEN]; len];
        tree[0] = *seed;
        let mut i: usize = 0;
        while i < internal
            invariant
                i <= internal,
                len == 2 * internal + 1,
                tree.len() == len,
                forall|j: int| 0 <= j < 2 * i + 1 ==> tree[j]@ == node(self@, seed@, j as nat),
            decreases internal - i,
        {
            let (first, second) = self.generate_double(&tree[i]);
            tree[2 * i + 1] = first;
            tree[2 * i + 2] = second;
            i += 1;
        }
        proof {
            assert(seeds_view(tree@) =~= ggm_tree(self@, seed@, depth as nat));
            assert(tree[0] =~= *seed);
            if depth == 0 {
                lemma2_to64();
                assert(tree@ =~= seq![*seed]);
            }
        }
        tree
    }
}

/// Determinism: generators made from the same seed expand the same input
/// to the same pair, and so does one generator asked twice.
pub proof fn lemma_generate_double_deterministic(
    key: SeedU8x16,
    seed: SeedU8x16,
    first_prg: OneToTwoPRG,
    second_prg: OneToTwoPRG,
    first: (SeedU8x16, SeedU8x16),
    second: (SeedU8x16, SeedU8x16),
)
    requires
        first_prg@ == derive_keys(key@),
        second_prg@ == derive_keys(key@),
        (first.0@, first.1@) == double(first_prg@, seed@),
        (second.0@, second.1@) == double(second_prg@, seed@),
    ensures
        first == second,
{
    assert(first.0 =~= second.0);
    assert(first.1 =~= second.1);
}

/// Size of a tree: `2^(depth + 1) - 1` nodes, with the seed it was grown
/// from at the root.
pub proof fn lemma_tree_size_and_root(keys: BranchKeys, root: Seq<u8>, depth: nat)
    ensures
        ggm_tree(keys, root, depth).len() == pow2(depth + 1) - 1,
        ggm_tree(keys, root, depth)[0] == root,
{
    lemma_pow2_pos(depth + 1);
    lemma_pow2_unfold(depth + 1);
    lemma_pow2_pos(depth);
}

/// A tree of depth 0 is the seed alone.
pub proof fn lemma_tree_of_depth_zero(keys: BranchKeys, root: Seq<u8>)
    ensures
        ggm_tree(keys, root, 0) == seq![root],
{
    lemma2_to64();
    assert(ggm_tree(keys, root, 0) =~= seq![root]);
}

/// Recursive consistency: the two children of every internal node hold the
/// pair that the seed of the node expands to.
pub proof fn lemma_children_are_expansion(keys: BranchKeys, root: Seq<u8>, depth: nat, i: int)
    requires
        0 <= i < internal_count(depth),
    ensures
        2 * i + 2 < tree_len(depth),
        (ggm_tree(keys, root, depth)[2 * i + 1], ggm_tree(keys, root, depth)[2 * i + 2])
            == double(keys, ggm_tree(keys, root, depth)[i]),
{
    lemma_tree_len_from_internal(depth);
}

} // verus!
