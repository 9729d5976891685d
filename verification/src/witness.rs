//! Authentication paths into the note commitment tree.
//!
//! A witness is supplied by an outside tree holder: it names a historical
//! root, the tree size at that root, and the sibling hashes along the way
//! up. The crate only checks witnesses, it never computes them.

use vstd::arithmetic::power2::{lemma2_to64, lemma_pow2_strictly_increases, lemma_pow2_unfold, pow2};
use vstd::prelude::*;

use crate::crypto::{base_canonical, merkle_combine};
use crate::merkle_note::MerkleNoteHash;
use crate::util::bytes_eq;

verus! {

/// Depth of the note commitment tree: the length of every auth path.
pub const TREE_DEPTH: usize = 32;

/// Which side of its parent a sibling hash sits on.
#[derive(Clone, Copy, Debug, PartialEq, Eq, Structural)]
pub enum Side {
    Left,
    Right,
}

/// One step of an auth path: the sibling hash and its side.
#[derive(Debug, Clone)]
pub struct WitnessNode {
    pub side: Side,
    pub hash: Vec<u8>,
}

/// An authentication path for one leaf: the tree size and root it speaks
/// for, and the sibling hashes from the leaf up.
#[derive(Debug, Clone)]
pub struct Witness {
    pub tree_size: u32,
    pub root_hash: Vec<u8>,
    pub auth_path: Vec<WitnessNode>,
}

/// The root obtained by folding the first `i` steps of an auth path over
/// a leaf: at each depth the running hash is combined with the sibling,
/// on the side the path records.
pub open spec fn spec_partial_root(leaf: Seq<u8>, path: Seq<WitnessNode>, i: int) -> Seq<u8>
    decreases i,
{
    if i <= 0 {
        leaf
    } else {
        let prev = spec_partial_root(leaf, path, i - 1);
        let node = path[i - 1];
        if node.side is Left {
            merkle_combine(i - 1, node.hash@, prev)
        } else {
            merkle_combine(i - 1, prev, node.hash@)
        }
    }
}

/// The root an auth path claims for a leaf.
pub open spec fn spec_witness_root(leaf: Seq<u8>, path: Seq<WitnessNode>) -> Seq<u8> {
    spec_partial_root(leaf, path, path.len() as int)
}

/// The leaf position an auth path encodes: step `i` contributes bit `i`,
/// set when the sibling sits on the left.
pub open spec fn spec_position_upto(path: Seq<WitnessNode>, i: int) -> nat
    decreases i,
{
    if i <= 0 {
        0
    } else {
        (spec_position_upto(path, i - 1) + if path[i - 1].side is Left {
            pow2((i - 1) as nat)
        } else {
            0
        }) as nat
    }
}

/// The position of the witnessed leaf.
pub open spec fn spec_position(path: Seq<WitnessNode>) -> nat {
    spec_position_upto(path, path.len() as int)
}

/// A partial position is below the power of two of its step count.
proof fn lemma_position_bound(path: Seq<WitnessNode>, i: int)
    requires
        0 <= i,
    ensures
        spec_position_upto(path, i) < pow2(i as nat),
    decreases i,
{
    if i > 0 {
        lemma_position_bound(path, i - 1);
        lemma_pow2_unfold(i as nat);
    } else {
        lemma2_to64();
    }
}

impl Witness {
    /// A well-formed witness: a canonical 32-byte root and a full-depth
    /// path of canonical 32-byte sibling hashes.
    pub open spec fn valid(&self) -> bool {
        &&& self.root_hash@.len() == 32
        &&& base_canonical(self.root_hash@)
        &&& self.auth_path@.len() == 32
        &&& forall|i: int|
            0 <= i < 32 ==> (#[trigger] self.auth_path@[i].hash@).len() == 32 && base_canonical(
                self.auth_path@[i].hash@,
            )
    }

    /// Checks that this witness authenticates a leaf hash against the
    /// witness's own root: the path folded over the leaf must reproduce
    /// the root exactly.
    pub fn verify(&self, leaf: &MerkleNoteHash) -> (r: bool)
        requires
            self.valid(),
            leaf.valid(),
        ensures
            r == (spec_witness_root(leaf.0@, self.auth_path@) == self.root_hash@),
    {
        let mut cur = leaf.0.clone();
        let mut i: usize = 0;
        while i < TREE_DEPTH
            invariant
                i <= 32,
                self.valid(),
                cur@ == spec_partial_root(leaf.0@, self.auth_path@, i as int),
                cur@.len() == 32,
                base_canonical(cur@),
            decreases 32 - i,
        {
            let node = &self.auth_path[i];
            let parent = match node.side {
                Side::Left => crate::crypto::combine_node(i, node.hash.as_slice(), cur.as_slice()),
                Side::Right => crate::crypto::combine_node(i, cur.as_slice(), node.hash.as_slice()),
            };
            cur = parent;
            i = i + 1;
        }
        bytes_eq(cur.as_slice(), self.root_hash.as_slice())
    }

    /// The position of the witnessed leaf in the tree.
    pub fn position(&self) -> (r: u64)
        requires
            self.valid(),
        ensures
            r == spec_position(self.auth_path@),
    {
        let mut acc: u64 = 0;
        let mut bit: u64 = 1;
        let mut i: usize = 0;
        proof {
            lemma2_to64();
        }
        while i < TREE_DEPTH
            invariant
                i <= 32,
                self.auth_path@.len() == 32,
                bit == pow2(i as nat),
                bit <= 0x1_0000_0000u64,
                acc == spec_position_upto(self.auth_path@, i as int),
                acc < bit,
            decreases 32 - i,
        {
            proof {
                lemma_position_bound(self.auth_path@, i as int);
                lemma2_to64();
                if i < 31 {
                    lemma_pow2_strictly_increases(i as nat, 31);
                }
                lemma_pow2_unfold((i + 1) as nat);
            }
            let is_left = match self.auth_path[i].side {
                Side::Left => true,
                Side::Right => false,
            };
            if is_left {
                acc = acc + bit;
            }
            bit = bit * 2;
            i = i + 1;
        }
        acc
    }
}

} // verus!
