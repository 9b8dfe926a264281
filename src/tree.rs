//! The append-only commitment accumulator.
use vstd::prelude::*;
use vstd::arithmetic::power2::{pow2, lemma2_to64, lemma_pow2_pos, lemma_pow2_strictly_increases};
use vstd::bits::lemma_u64_shl_is_mul;
use crate::bytes::{bytes32_eq, zero32};
use crate::errors::SolanaVeilError;

verus! {

/// Smallest accepted tree depth.
pub const MIN_TREE_DEPTH: u8 = 10;

/// Largest accepted tree depth.
pub const MAX_TREE_DEPTH: u8 = 32;

/// How many recent roots a withdrawal proof may be built against.
pub const ROOT_HISTORY_SIZE: usize = 30;

/// Whether `depth` is an accepted tree depth.
pub open spec fn valid_depth(depth: u8) -> bool {
    MIN_TREE_DEPTH <= depth <= MAX_TREE_DEPTH
}

/// A tree of an accepted depth holds at most `2^32` leaves.
pub proof fn lemma_capacity_bound(depth: u8)
    requires
        valid_depth(depth),
    ensures
        0 < pow2(depth as nat) <= 0x1_0000_0000,
{
    lemma2_to64();
    if depth < 32 {
        lemma_pow2_strictly_increases(depth as nat, 32);
    }
    lemma_pow2_pos(depth as nat);
}

/// The root window after `root` is published on top of `history`: the
/// newest `ROOT_HISTORY_SIZE` roots, oldest first.
pub open spec fn pushed_history(history: Seq<[u8; 32]>, root: [u8; 32]) -> Seq<[u8; 32]> {
    let s = history.push(root);
    if s.len() > ROOT_HISTORY_SIZE {
        s.subrange(1, s.len() as int)
    } else {
        s
    }
}

/// The commitment accumulator of one pool.
///
/// Leaves are recorded in insertion order; leaf `i` was assigned index `i`.
/// Roots are published by the tree's authority from an off-chain mirror that
/// hashes the leaves; the tree keeps the newest `ROOT_HISTORY_SIZE` of them.
pub struct MerkleTree {
    pub authority: [u8; 32],
    pub max_depth: u8,
    pub num_leaves: u64,
    pub root: [u8; 32],
    pub root_history: Vec<[u8; 32]>,
    pub leaves: Vec<[u8; 32]>,
}

impl MerkleTree {
    /// How many leaves the tree can hold.
    pub open spec fn capacity(&self) -> nat {
        pow2(self.max_depth as nat)
    }

    pub open spec fn is_full_spec(&self) -> bool {
        self.num_leaves >= self.capacity()
    }

    pub open spec fn knows_root(&self, root: [u8; 32]) -> bool {
        self.root_history@.contains(root)
    }

    pub open spec fn wf(&self) -> bool {
        &&& valid_depth(self.max_depth)
        &&& self.num_leaves == self.leaves@.len()
        &&& self.num_leaves <= self.capacity()
        &&& 1 <= self.root_history@.len() <= ROOT_HISTORY_SIZE
        &&& self.root == self.root_history@.last()
    }

    /// Whether no leaf can be appended any more.
    pub fn is_full(&self) -> (r: bool)
        requires
            self.wf(),
        ensures
            r == self.is_full_spec(),
    {
        self.num_leaves >= self.capacity_u64()
    }

    /// `2^max_depth`.
    pub fn capacity_u64(&self) -> (r: u64)
        requires
            valid_depth(self.max_depth),
        ensures
            r == self.capacity(),
    {
        let d = self.max_depth as u64;
        proof {
            lemma_capacity_bound(self.max_depth);
            lemma_u64_shl_is_mul(1, d);
        }
        1u64 << d
    }

    /// Appends `leaf` and returns its index, the number of leaves before it.
    pub fn append(&mut self, leaf: [u8; 32]) -> (r: Result<u64, SolanaVeilError>)
        requires
            old(self).wf(),
        ensures
            final(self).wf(),
            old(self).is_full_spec() ==> r == Err::<u64, SolanaVeilError>(
                SolanaVeilError::MerkleTreeFull,
            ) && *final(self) == *old(self),
            !old(self).is_full_spec() ==> r == Ok::<u64, SolanaVeilError>(old(self).num_leaves) && {
                &&& final(self).leaves@ == old(self).leaves@.push(leaf)
                &&& final(self).num_leaves == old(self).num_leaves + 1
                &&& final(self).root_history == old(self).root_history
                &&& final(self).root == old(self).root
                &&& final(self).max_depth == old(self).max_depth
                &&& final(self).authority == old(self).authority
            },
    {
        if self.is_full() {
            return Err(SolanaVeilError::MerkleTreeFull);
        }
        let index = self.num_leaves;
        proof {
            lemma_capacity_bound(self.max_depth);
        }
        self.leaves.push(leaf);
        self.num_leaves = index + 1;
        Ok(index)
    }

    /// Whether `root` is one of the recent roots.
    pub fn is_known_root(&self, root: &[u8; 32]) -> (r: bool)
        requires
            self.wf(),
        ensures
            r == self.knows_root(*root),
    {
        let mut i: usize = 0;
        while i < self.root_history.len()
            invariant
                0 <= i <= self.root_history@.len(),
                forall|j: int| 0 <= j < i ==> self.root_history@[j] != *root,
            decreases self.root_history@.len() - i,
        {
            if bytes32_eq(&self.root_history[i], root) {
                assert(self.root_history@[i as int] == *root);
                return true;
            }
            i += 1;
        }
        false
    }
}

/// Creates an empty tree of the given depth, whose only known root is zero.
pub fn initialize_tree(authority: [u8; 32], max_depth: u8) -> (r: Result<
    MerkleTree,
    SolanaVeilError,
>)
    ensures
        !valid_depth(max_depth) <==> r == Err::<MerkleTree, SolanaVeilError>(
            SolanaVeilError::InvalidTreeDepth,
        ),
        valid_depth(max_depth) <==> r is Ok,
        r matches Ok(t) ==> {
            &&& t.wf()
            &&& t.authority == authority
            &&& t.max_depth == max_depth
            &&& t.num_leaves == 0
            &&& t.root@ == zero32()
            &&& t.root_history@ == seq![t.root]
        },
{
    if max_depth < MIN_TREE_DEPTH || max_depth > MAX_TREE_DEPTH {
        return Err(SolanaVeilError::InvalidTreeDepth);
    }
    let mut root_history: Vec<[u8; 32]> = Vec::new();
    root_history.push([0u8; 32]);
    let t = MerkleTree {
        authority,
        max_depth,
        num_leaves: 0,
        root: [0u8; 32],
        root_history,
        leaves: Vec::new(),
    };
    assert(t.root_history@ =~= seq![t.root]);
    assert(t.root@ =~= zero32());
    proof {
        lemma_capacity_bound(max_depth);
    }
    Ok(t)
}

/// Publishes `new_root` as the tree's current root; only the tree's
/// authority may do so.
pub fn update_tree_root(tree: &mut MerkleTree, caller: &[u8; 32], new_root: [u8; 32]) -> (r:
    Result<(), SolanaVeilError>)
    requires
        old(tree).wf(),
    ensures
        final(tree).wf(),
        *caller != old(tree).authority <==> r is Err,
        r is Err ==> r == Err::<(), SolanaVeilError>(SolanaVeilError::Unauthorized) && *final(tree)
            == *old(tree),
        r is Ok ==> {
            &&& final(tree).root == new_root
            &&& final(tree).root_history@ == pushed_history(old(tree).root_history@, new_root)
            &&& final(tree).leaves == old(tree).leaves
            &&& final(tree).num_leaves == old(tree).num_leaves
            &&& final(tree).max_depth == old(tree).max_depth
            &&& final(tree).authority == old(tree).authority
        },
{
    if !bytes32_eq(caller, &tree.authority) {
        return Err(SolanaVeilError::Unauthorized);
    }
    tree.root_history.push(new_root);
    if tree.root_history.len() > ROOT_HISTORY_SIZE {
        tree.root_history.remove(0);
    }
    tree.root = new_root;
    assert(tree.root_history@ =~= pushed_history(old(tree).root_history@, new_root));
    Ok(())
}

} // verus!
