//! Blocks as the window sees them, and the predicates on runs of blocks that
//! the contracts of the other modules are stated over.

use vstd::prelude::*;

verus! {

/// The 32-byte identifier of a block, held as the two halves of its
/// big-endian reading. Two identifiers are equal exactly when both halves
/// are.
#[derive(Clone, Copy, Debug, PartialEq, Eq, Structural, Hash)]
pub struct BlockHash {
    pub hi: u128,
    pub lo: u128,
}

/// What the window keeps of a block: its height, its identifier and the
/// identifier of the block below it, as the answering node saw them.
#[derive(Clone, Copy, Debug, PartialEq, Eq, Structural, Hash)]
pub struct Block {
    pub number: u64,
    pub hash: BlockHash,
    pub parent_hash: BlockHash,
}

/// The numbers rise strictly from each entry to every later one. A run in
/// this order holds no height twice.
pub open spec fn is_ascending(s: Seq<Block>) -> bool {
    forall|i: int, j: int| 0 <= i < j < s.len() ==> s[i].number < s[j].number
}

/// Every entry but the first names the entry before it as its parent.
pub open spec fn is_linked(s: Seq<Block>) -> bool {
    forall|i: int| 0 < i < s.len() ==> (#[trigger] s[i]).parent_hash == s[i - 1].hash
}

/// A run as a chain hands it out: each entry stands one height above the
/// entry before it and names it as its parent.
pub open spec fn is_chain(s: Seq<Block>) -> bool {
    &&& is_linked(s)
    &&& forall|i: int| 0 < i < s.len() ==> (#[trigger] s[i]).number == s[i - 1].number + 1
}

/// The heights of a run, in its order.
pub open spec fn heights(s: Seq<Block>) -> Seq<u64> {
    Seq::new(s.len(), |i: int| s[i].number)
}

/// Whether a run is ascending is decided by its heights alone.
pub proof fn lemma_ascending_by_heights(a: Seq<Block>, b: Seq<Block>)
    requires
        heights(a) == heights(b),
    ensures
        is_ascending(a) == is_ascending(b),
{
    assert(a.len() == heights(a).len() && b.len() == heights(b).len());
    assert forall|i: int| 0 <= i < a.len() implies (#[trigger] a[i]).number == b[i].number by {
        assert(heights(a)[i] == a[i].number && heights(b)[i] == b[i].number);
    }
    if is_ascending(a) {
        assert forall|i: int, j: int| 0 <= i < j < b.len() implies b[i].number < b[j].number by {
            assert(a[i].number < a[j].number);
        }
    }
    if is_ascending(b) {
        assert forall|i: int, j: int| 0 <= i < j < a.len() implies a[i].number < a[j].number by {
            assert(b[i].number < b[j].number);
        }
    }
}

/// A copy of `blocks`.
pub fn copy_blocks(blocks: &Vec<Block>) -> (copy: Vec<Block>)
    ensures
        copy@ == blocks@,
{
    let mut copy: Vec<Block> = Vec::new();
    let mut i: usize = 0;
    while i < blocks.len()
        invariant
            i <= blocks.len(),
            copy@ == blocks@.take(i as int),
        decreases blocks.len() - i,
    {
        copy.push(blocks[i]);
        i += 1;
    }
    copy
}

/// A chain is in ascending order.
pub proof fn lemma_chain_is_ascending(s: Seq<Block>)
    requires
        is_chain(s),
    ensures
        is_ascending(s),
{
    assert forall|i: int, j: int| 0 <= i < j < s.len() implies s[i].number < s[j].number by {
        lemma_chain_heights(s, i, j);
    }
}

/// In a chain the height grows by one with each position.
pub proof fn lemma_chain_heights(s: Seq<Block>, i: int, j: int)
    requires
        is_chain(s),
        0 <= i <= j < s.len(),
    ensures
        s[j].number == s[i].number + (j - i),
    decreases j - i,
{
    if i < j {
        lemma_chain_heights(s, i, j - 1);
    }
}

/// Every prefix of a chain is a chain.
pub proof fn lemma_chain_prefix(s: Seq<Block>, n: int)
    requires
        is_chain(s),
        0 <= n <= s.len(),
    ensures
        is_chain(s.take(n)),
{
}

} // verus!
