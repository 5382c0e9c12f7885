//! Keccak-256, the one hash used for leaves and for every level of the tree.

use crate::input::Page;
use tiny_keccak::{Hasher, Keccak};
use vstd::prelude::*;

verus! {

/// The Keccak-256 digest of a byte string. Its value is computed by the
/// `tiny_keccak` crate and is not defined here; it depends on the bytes alone.
pub uninterp spec fn keccak256_digest(data: Seq<u8>) -> [u8; 32];

/// Runs `tiny_keccak::Keccak::v256`, absorbs `data` with one call of
/// `Hasher::update` and squeezes 32 bytes with `Hasher::finalize`.
/// Trusted: the bytes that come out are the Keccak-256 digest of `data`,
/// a function of the input bytes and of nothing else.
#[verifier::external_body]
fn keccak256(data: &[u8]) -> (digest: [u8; 32])
    ensures
        digest == keccak256_digest(data@),
{
    let mut hasher = Keccak::v256();
    let mut output = [0u8; 32];
    hasher.update(data);
    hasher.finalize(&mut output);
    output
}

/// The digest of one page's content.
pub open spec fn leaf_digest(content: Seq<u8>) -> [u8; 32] {
    keccak256_digest(content)
}

/// The digest of a pair of digests: the hash of the left one's bytes followed
/// by the right one's.
pub open spec fn pair_digest(left: [u8; 32], right: [u8; 32]) -> [u8; 32] {
    keccak256_digest(left@ + right@)
}

/// The digest of a digest that has no partner: the hash of its 32 bytes alone.
pub open spec fn lone_digest(left: [u8; 32]) -> [u8; 32] {
    keccak256_digest(left@)
}

/// What the combiner yields for a left digest and, where there is one, a right
/// digest.
pub open spec fn combine_digest(left: [u8; 32], right: Option<[u8; 32]>) -> [u8; 32] {
    match right {
        Some(r) => pair_digest(left, r),
        None => lone_digest(left),
    }
}

/// Hashes one page into its leaf. An empty page has a leaf like any other.
pub fn hash_leaf(page: &Page) -> (leaf: [u8; 32])
    ensures
        leaf == leaf_digest(page.data@),
{
    keccak256(page.data.as_slice())
}

/// Combines a digest with its right neighbour, or hashes it alone where it
/// has none.
pub fn combine(left: &[u8; 32], right: Option<&[u8; 32]>) -> (parent: [u8; 32])
    ensures
        parent == combine_digest(
            *left,
            match right {
                Some(r) => Some(*r),
                None => None,
            },
        ),
{
    let mut buffer: Vec<u8> = Vec::new();
    buffer.extend_from_slice(left.as_slice());
    match right {
        Some(r) => {
            buffer.extend_from_slice(r.as_slice());
            assert(buffer@ =~= left@ + r@);
        },
        None => {
            assert(buffer@ =~= left@);
        },
    }
    keccak256(buffer.as_slice())
}

} // verus!
