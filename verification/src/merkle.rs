//! The reduction of a level of digests to a root, and the comparison of a
//! root with the expected one.

use crate::hash::{combine, combine_digest, hash_leaf, leaf_digest};
use crate::input::{page_bytes, Inputs, Page};
use vstd::prelude::*;
use vstd::slice::slice_to_vec;

verus! {

/// Why no root is committed.
#[derive(Clone, Copy, Debug, PartialEq, Eq, Structural)]
pub enum MerkleError {
    /// No page was supplied: there is no root of nothing.
    EmptyInput,
    /// The computed root differs from the expected one.
    RootMismatch,
}

/// The leaves of a sequence of page contents, in page order.
pub open spec fn leaf_level(contents: Seq<Seq<u8>>) -> Seq<[u8; 32]> {
    Seq::new(contents.len(), |i: int| leaf_digest(contents[i]))
}

/// The digest at position `i` of the level above `level`: elements `2i` and
/// `2i + 1` combined, or element `2i` hashed alone where it is the last of an
/// odd level.
pub open spec fn parent_digest(level: Seq<[u8; 32]>, i: int) -> [u8; 32] {
    if 2 * i + 1 < level.len() {
        combine_digest(level[2 * i], Some(level[2 * i + 1]))
    } else {
        combine_digest(level[2 * i], None)
    }
}

/// The level above `level`: half as many digests, rounded up.
pub open spec fn next_level(level: Seq<[u8; 32]>) -> Seq<[u8; 32]> {
    Seq::new(((level.len() + 1) / 2) as nat, |i: int| parent_digest(level, i))
}

/// The root of a non-empty level: the level's one digest, or the root of the
/// level above.
pub open spec fn reduce(level: Seq<[u8; 32]>) -> [u8; 32]
    decreases level.len(),
{
    if level.len() <= 1 {
        level[0]
    } else {
        reduce(next_level(level))
    }
}

/// The root of a non-empty sequence of page contents.
pub open spec fn merkle_root(contents: Seq<Seq<u8>>) -> [u8; 32] {
    reduce(leaf_level(contents))
}

/// Hashes every page into its leaf, keeping the order of the pages.
pub fn hash_leaves(pages: &Vec<Page>) -> (leaves: Vec<[u8; 32]>)
    ensures
        leaves@ == leaf_level(page_bytes(pages@)),
{
    let mut leaves: Vec<[u8; 32]> = Vec::new();
    let mut i: usize = 0;
    while i < pages.len()
        invariant
            i <= pages.len(),
            leaves@.len() == i,
            forall|j: int| 0 <= j < i ==> leaves@[j] == leaf_digest(#[trigger] pages@[j].data@),
        decreases pages.len() - i,
    {
        let leaf = hash_leaf(&pages[i]);
        leaves.push(leaf);
        i += 1;
    }
    assert(leaves@ =~= leaf_level(page_bytes(pages@)));
    leaves
}

/// Builds the level above `level`: consecutive pairs combined from left to
/// right, and the last digest of an odd level hashed alone.
pub fn reduce_level(level: &Vec<[u8; 32]>) -> (above: Vec<[u8; 32]>)
    ensures
        above@ == next_level(level@),
{
    let n: usize = level.len();
    let pairs: usize = n / 2;
    let mut above: Vec<[u8; 32]> = Vec::new();
    let mut k: usize = 0;
    while k < pairs
        invariant
            n == level.len(),
            pairs == n / 2,
            k <= pairs,
            above@.len() == k,
            forall|j: int| 0 <= j < k ==> above@[j] == parent_digest(level@, j),
        decreases pairs - k,
    {
        let parent = combine(&level[2 * k], Some(&level[2 * k + 1]));
        above.push(parent);
        k += 1;
    }
    if n % 2 == 1 {
        let parent = combine(&level[n - 1], None);
        above.push(parent);
    }
    assert(above@ =~= next_level(level@));
    above
}

/// Reduces a level of digests to its root. A level of one digest is its own
/// root; an empty level has none.
pub fn reduce_to_root(leaves: Vec<[u8; 32]>) -> (res: Result<[u8; 32], MerkleError>)
    ensures
        leaves@.len() == 0 <==> res == Err::<[u8; 32], MerkleError>(MerkleError::EmptyInput),
        leaves@.len() > 0 <==> res == Ok::<[u8; 32], MerkleError>(reduce(leaves@)),
{
    if leaves.len() == 0 {
        return Err(MerkleError::EmptyInput);
    }
    let mut level = leaves;
    while level.len() > 1
        invariant
            level@.len() >= 1,
            reduce(level@) == reduce(leaves@),
        decreases level@.len(),
    {
        level = reduce_level(&level);
    }
    Ok(level[0])
}

/// Computes the root of the pages: every page hashed into a leaf, the leaves
/// reduced level by level. Without pages there is no root, and nothing is
/// hashed.
pub fn compute_merkle_root(pages: &Vec<Page>) -> (res: Result<Vec<u8>, MerkleError>)
    ensures
        pages@.len() == 0 <==> res == Err::<Vec<u8>, MerkleError>(MerkleError::EmptyInput),
        pages@.len() > 0 <==> res is Ok,
        res is Ok ==> res->Ok_0@ == merkle_root(page_bytes(pages@))@,
        res is Ok ==> res->Ok_0@.len() == 32,
{
    if pages.len() == 0 {
        return Err(MerkleError::EmptyInput);
    }
    let leaves = hash_leaves(pages);
    match reduce_to_root(leaves) {
        Ok(root) => Ok(slice_to_vec(root.as_slice())),
        Err(e) => Err(e),
    }
}

/// What the comparison of a computed root with an expected one yields: the
/// two agree byte for byte, or the root is refused.
pub open spec fn verify_outcome(computed: Seq<u8>, expected: Seq<u8>) -> Result<(), MerkleError> {
    if computed == expected {
        Ok(())
    } else {
        Err(MerkleError::RootMismatch)
    }
}

/// Compares a computed root with the expected one, byte for byte.
pub fn verify_root(computed: &Vec<u8>, expected: &Vec<u8>) -> (res: Result<(), MerkleError>)
    ensures
        res == verify_outcome(computed@, expected@),
{
    if computed.len() != expected.len() {
        return Err(MerkleError::RootMismatch);
    }
    let mut i: usize = 0;
    while i < computed.len()
        invariant
            computed@.len() == expected@.len(),
            i <= computed@.len(),
            forall|j: int| 0 <= j < i ==> computed@[j] == expected@[j],
        decreases computed@.len() - i,
    {
        if computed[i] != expected[i] {
            return Err(MerkleError::RootMismatch);
        }
        i += 1;
    }
    assert(computed@ =~= expected@);
    Ok(())
}

/// What a run over `pages` with the expected root `expected` ends in: the
/// root to commit, where there are pages and their root is the expected one.
pub open spec fn run_outcome(pages: Seq<Page>, expected: Seq<u8>) -> Result<Seq<u8>, MerkleError> {
    if pages.len() == 0 {
        Err(MerkleError::EmptyInput)
    } else if merkle_root(page_bytes(pages))@ == expected {
        Ok(expected)
    } else {
        Err(MerkleError::RootMismatch)
    }
}

/// Recomputes the root of the pages and compares it with the expected root.
/// A run is loaded, reduced, and then either verified or rejected: the root
/// is handed out for commitment only from a verified run, and a rejected run
/// is final.
pub fn verified_root(inputs: &Inputs) -> (res: Result<Vec<u8>, MerkleError>)
    ensures
        match run_outcome(inputs.pages@, inputs.merkle_root@) {
            Ok(root) => res is Ok && res->Ok_0@ == root,
            Err(e) => res == Err::<Vec<u8>, MerkleError>(e),
        },
{
    match compute_merkle_root(&inputs.pages) {
        Ok(root) => match verify_root(&root, &inputs.merkle_root) {
            Ok(()) => Ok(root),
            Err(e) => Err(e),
        },
        Err(e) => Err(e),
    }
}

} // verus!
