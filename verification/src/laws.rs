//! Laws of the reduction, proved over its mathematical model.

use crate::hash::{keccak256_digest, leaf_digest, lone_digest, pair_digest};
use crate::merkle::{leaf_level, merkle_root, next_level, parent_digest, reduce, verify_outcome, MerkleError};
use vstd::prelude::*;

verus! {

/// The root is a function of the pages: two sequences of the same length
/// with the same content at every position have the same root.
pub proof fn lemma_root_deterministic(p: Seq<Seq<u8>>, q: Seq<Seq<u8>>)
    requires
        p.len() > 0,
        p.len() == q.len(),
        forall|i: int| 0 <= i < p.len() ==> p[i] == q[i],
    ensures
        merkle_root(p) == merkle_root(q),
{
    assert(p =~= q);
}

/// The root of a single page is that page's leaf: nothing is combined.
pub proof fn lemma_single_page_root(p: Seq<Seq<u8>>)
    requires
        p.len() == 1,
    ensures
        merkle_root(p) == leaf_digest(p[0]),
{
}

/// The root of two pages is the hash of the first leaf followed by the
/// second.
pub proof fn lemma_root_of_two_pages(a: Seq<u8>, b: Seq<u8>)
    ensures
        merkle_root(seq![a, b]) == pair_digest(leaf_digest(a), leaf_digest(b)),
{
    let level = leaf_level(seq![a, b]);
    assert(level.len() == 2);
    assert(level[0] == leaf_digest(a));
    assert(level[1] == leaf_digest(b));
    assert(next_level(level).len() == 1);
    assert(next_level(level)[0] == parent_digest(level, 0));
    assert(reduce(level) == reduce(next_level(level)));
}

/// The root of three pages combines the hash of the first two leaves with
/// the hash of the third leaf taken alone.
pub proof fn lemma_root_of_three_pages(a: Seq<u8>, b: Seq<u8>, c: Seq<u8>)
    ensures
        merkle_root(seq![a, b, c]) == pair_digest(
            pair_digest(leaf_digest(a), leaf_digest(b)),
            lone_digest(leaf_digest(c)),
        ),
{
    let level = leaf_level(seq![a, b, c]);
    assert(level.len() == 3);
    assert(level[0] == leaf_digest(a));
    assert(level[1] == leaf_digest(b));
    assert(level[2] == leaf_digest(c));
    let above = next_level(level);
    assert(above.len() == 2);
    assert(above[0] == parent_digest(level, 0));
    assert(above[1] == parent_digest(level, 1));
    assert(reduce(level) == reduce(above));
    let top = next_level(above);
    assert(top.len() == 1);
    assert(top[0] == parent_digest(above, 0));
    assert(reduce(above) == reduce(top));
}

/// A level above has half as many digests as the level below, rounded up,
/// and so is strictly shorter wherever the level below has two or more.
pub proof fn lemma_next_level_halves(level: Seq<[u8; 32]>)
    ensures
        next_level(level).len() == (level.len() + 1) / 2,
        level.len() >= 2 ==> 1 <= next_level(level).len() < level.len(),
{
}

/// Over a level of odd length the last digest above is the hash of the last
/// digest below taken alone, not of that digest followed by itself; every
/// digest before it is the hash of a pair.
pub proof fn lemma_odd_level_hashes_last_alone(level: Seq<[u8; 32]>)
    requires
        level.len() % 2 == 1,
    ensures
        next_level(level).len() >= 1,
        next_level(level).last() == lone_digest(level.last()),
        next_level(level).last() == keccak256_digest(level.last()@),
        forall|i: int|
            0 <= i < next_level(level).len() - 1 ==> #[trigger] next_level(level)[i]
                == keccak256_digest(level[2 * i]@ + level[2 * i + 1]@),
{
    let n = level.len() as int;
    let last = (n + 1) / 2 - 1;
    assert(2 * last == n - 1);
    assert(next_level(level)[last] == parent_digest(level, last));
}

/// A root checked against itself is accepted; checked against any other byte
/// string it is refused as a mismatch.
pub proof fn lemma_verify_accepts_only_the_root(p: Seq<Seq<u8>>, other: Seq<u8>)
    requires
        p.len() > 0,
    ensures
        verify_outcome(merkle_root(p)@, merkle_root(p)@) == Ok::<(), MerkleError>(()),
        other != merkle_root(p)@ ==> verify_outcome(merkle_root(p)@, other) == Err::<
            (),
            MerkleError,
        >(MerkleError::RootMismatch),
{
}

/// Two byte strings do not collide under the hash: where their digests are
/// equal, so are they.
pub open spec fn collision_free(a: Seq<u8>, b: Seq<u8>) -> bool {
    keccak256_digest(a) == keccak256_digest(b) ==> a == b
}

/// The bytes that are hashed for position `i` of the level above `level`.
pub open spec fn parent_input(level: Seq<[u8; 32]>, i: int) -> Seq<u8> {
    if 2 * i + 1 < level.len() {
        level[2 * i]@ + level[2 * i + 1]@
    } else {
        level[2 * i]@
    }
}

/// In the trees over `a` and `b`, two levels of one length, no bytes hashed
/// at a position of one tree collide with those hashed at the same position
/// of the other.
pub open spec fn trees_collision_free(a: Seq<[u8; 32]>, b: Seq<[u8; 32]>) -> bool
    decreases a.len(),
{
    a.len() == b.len() && (a.len() <= 1 || ((forall|i: int|
        0 <= i < (a.len() + 1) / 2 ==> collision_free(
            #[trigger] parent_input(a, i),
            parent_input(b, i),
        )) && trees_collision_free(next_level(a), next_level(b))))
}

/// Where no collision of the hash lies between two trees over levels of one
/// length, equal roots come only from equal levels.
pub proof fn lemma_reduce_injective(a: Seq<[u8; 32]>, b: Seq<[u8; 32]>)
    requires
        a.len() > 0,
        trees_collision_free(a, b),
        reduce(a) == reduce(b),
    ensures
        a == b,
    decreases a.len(),
{
    if a.len() > 1 {
        let na = next_level(a);
        let nb = next_level(b);
        lemma_reduce_injective(na, nb);
        assert forall|j: int| 0 <= j < a.len() implies a[j] == b[j] by {
            let i = j / 2;
            assert(na[i] == parent_digest(a, i));
            assert(nb[i] == parent_digest(b, i));
            assert(collision_free(parent_input(a, i), parent_input(b, i)));
            let x = parent_input(a, i);
            let y = parent_input(b, i);
            assert(x == y);
            if 2 * i + 1 < a.len() {
                assert(a[2 * i]@ =~= x.subrange(0, 32));
                assert(b[2 * i]@ =~= y.subrange(0, 32));
                assert(a[2 * i + 1]@ =~= x.subrange(32, 64));
                assert(b[2 * i + 1]@ =~= y.subrange(32, 64));
            }
            assert(a[j] =~= b[j]);
        }
    }
    assert(a =~= b);
}

/// The bytes of every hash input of the tree over the pages `p` are free of
/// collisions with those at the same position of the tree over the pages
/// `q`: page against page, and pair against pair on every level above.
pub open spec fn pages_collision_free(p: Seq<Seq<u8>>, q: Seq<Seq<u8>>) -> bool {
    &&& p.len() == q.len()
    &&& forall|i: int| 0 <= i < p.len() ==> collision_free(#[trigger] p[i], q[i])
    &&& trees_collision_free(leaf_level(p), leaf_level(q))
}

/// The root stands for one sequence of pages: two sequences of the same
/// length with the same root are the same sequence, unless the hash collides
/// somewhere between their trees.
pub proof fn lemma_root_injective(p: Seq<Seq<u8>>, q: Seq<Seq<u8>>)
    requires
        p.len() > 0,
        pages_collision_free(p, q),
        merkle_root(p) == merkle_root(q),
    ensures
        p == q,
{
    lemma_reduce_injective(leaf_level(p), leaf_level(q));
    assert forall|i: int| 0 <= i < p.len() implies p[i] == q[i] by {
        assert(leaf_level(p)[i] == leaf_digest(p[i]));
        assert(leaf_level(q)[i] == leaf_digest(q[i]));
    }
    assert(p =~= q);
}

/// The root does not tell how many pages there were: a single page that
/// holds the leaves of two pages, one after the other, has the root of those
/// two pages. Only among inputs of one length does the root stand for one
/// sequence of pages.
pub proof fn lemma_joined_leaves_share_root(a: Seq<u8>, b: Seq<u8>)
    ensures
        merkle_root(seq![leaf_digest(a)@ + leaf_digest(b)@]) == merkle_root(seq![a, b]),
{
    lemma_root_of_two_pages(a, b);
    lemma_single_page_root(seq![leaf_digest(a)@ + leaf_digest(b)@]);
}

/// The pages `p` with those at positions `i` and `j` exchanged.
pub open spec fn swap_pages(p: Seq<Seq<u8>>, i: int, j: int) -> Seq<Seq<u8>> {
    p.update(i, p[j]).update(j, p[i])
}

/// The root depends on the order of the pages: exchanging two pages of
/// different content changes the root, unless the hash collides somewhere
/// between the two trees.
pub proof fn lemma_root_order_sensitive(p: Seq<Seq<u8>>, i: int, j: int)
    requires
        0 <= i < p.len(),
        0 <= j < p.len(),
        p[i] != p[j],
        pages_collision_free(p, swap_pages(p, i, j)),
    ensures
        merkle_root(swap_pages(p, i, j)) != merkle_root(p),
{
    let q = swap_pages(p, i, j);
    if merkle_root(q) == merkle_root(p) {
        lemma_root_injective(p, q);
    }
}

} // verus!
