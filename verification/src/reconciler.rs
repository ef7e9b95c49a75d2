//! Repair of the window against what the chain node answers now.
//!
//! A pass goes through the heights that the window held when the pass began,
//! newest first. For each height the caller asks the node for the block at
//! that height and hands the answer to `reorganize_blocks`, which overwrites
//! what the window holds at that height where the hash differs. A failed
//! question ends the pass: what was repaired stays repaired, the rest is left
//! for a later pass. A pass never removes or reorders entries.

use crate::block::{heights, Block, BlockHash};
use crate::chain::ChainError;
use crate::window::{replaced_at, BlockWindow};
use vstd::prelude::*;

verus! {

/// Some entry of `s` at height `height` has another hash than `hash`.
pub open spec fn differs_at(s: Seq<Block>, height: u64, hash: BlockHash) -> bool {
    exists|i: int| 0 <= i < s.len() && (#[trigger] s[i]).number == height && s[i].hash != hash
}

/// `s` after the node has answered `fetched` for `height`: where an entry
/// at that height has another hash, `fetched` takes the place of what stands
/// at that height; else nothing changes.
pub open spec fn reconciled_at(s: Seq<Block>, height: u64, fetched: Block) -> Seq<Block> {
    if differs_at(s, height, fetched.hash) {
        replaced_at(s, height, fetched)
    } else {
        s
    }
}

/// The window after one answer of a pass whose open heights are `pending`.
pub open spec fn window_after(
    s: Seq<Block>,
    pending: Seq<u64>,
    fetched: Result<Block, ChainError>,
) -> Seq<Block> {
    match fetched {
        Ok(block) if pending.len() > 0 => reconciled_at(s, pending[0], block),
        _ => s,
    }
}

/// The open heights after one answer: a block settles the first of them, a
/// failure ends the pass.
pub open spec fn pending_after(pending: Seq<u64>, fetched: Result<Block, ChainError>) -> Seq<
    u64,
> {
    match fetched {
        Ok(_) if pending.len() > 0 => pending.drop_first(),
        Ok(_) => pending,
        Err(_) => Seq::empty(),
    }
}

/// A pass in progress: the heights that are still to be asked for, in the
/// order in which they are asked.
#[derive(Debug)]
pub struct Reconciliation {
    order: Vec<u64>,
    next: usize,
}

impl Reconciliation {
    #[verifier::type_invariant]
    spec fn next_in_range(&self) -> bool {
        self.next <= self.order@.len()
    }

    /// The heights still to be asked for, the next one first.
    pub closed spec fn pending(&self) -> Seq<u64> {
        self.order@.skip(self.next as int)
    }

    /// Begins a pass over `blocks`: every height that it holds is to be
    /// asked for, the newest entry's first.
    pub fn begin(blocks: &BlockWindow) -> (pass: Self)
        ensures
            pass.pending() == heights(blocks@).reverse(),
    {
        let snapshot = blocks.snapshot();
        let mut order: Vec<u64> = Vec::new();
        let mut i: usize = snapshot.len();
        while i > 0
            invariant
                i <= snapshot.len(),
                order@.len() == snapshot.len() - i,
                forall|k: int|
                    0 <= k < order@.len() ==> order@[k] == snapshot@[snapshot.len() - 1 - k].number,
            decreases i,
        {
            i -= 1;
            order.push(snapshot[i].number);
        }
        Reconciliation { order, next: 0 }
    }

    /// The height to ask the node for next, or `None` where the pass is
    /// over.
    pub fn next_height(&self) -> (r: Option<u64>)
        ensures
            r == (if self.pending().len() > 0 {
                Some(self.pending()[0])
            } else {
                None
            }),
    {
        proof {
            use_type_invariant(self);
        }
        if self.next < self.order.len() {
            Some(self.order[self.next])
        } else {
            None
        }
    }
}

/// Takes the node's answer to the question that `pass` has open. A block
/// is compared with what `blocks` holds at the height asked for and takes
/// its place where the hash differs; the pass goes on to the next height. A
/// failure is handed back, and the pass is over. An answer to a pass that
/// has nothing open changes nothing.
pub fn reorganize_blocks(
    blocks: &mut BlockWindow,
    pass: &mut Reconciliation,
    fetched: Result<Block, ChainError>,
) -> (r: Result<(), ChainError>)
    ensures
        final(blocks)@ == window_after(old(blocks)@, old(pass).pending(), fetched),
        final(pass).pending() == pending_after(old(pass).pending(), fetched),
        r == (match fetched {
            Ok(_) => Ok::<(), ChainError>(()),
            Err(e) => Err(e),
        }),
        final(blocks)@.len() == old(blocks)@.len(),
        fetched matches Ok(block) && old(pass).pending().len() > 0 && block.number == old(
            pass,
        ).pending()[0] ==> heights(final(blocks)@) == heights(old(blocks)@),
{
    proof {
        use_type_invariant(&*pass);
    }
    match fetched {
        Ok(block) => {
            if pass.next < pass.order.len() {
                let height = pass.order[pass.next];
                if needs_repair(blocks, height, block.hash) {
                    blocks.replace_in_place(height, block);
                }
                assert(pass.order@.skip(pass.next as int).drop_first() =~= pass.order@.skip(
                    pass.next + 1,
                ));
                pass.next = pass.next + 1;
            }
            Ok(())
        },
        Err(e) => {
            pass.next = pass.order.len();
            Err(e)
        },
    }
}

/// Whether `blocks` holds, at height `height`, an entry with another hash
/// than `hash`.
fn needs_repair(blocks: &BlockWindow, height: u64, hash: BlockHash) -> (r: bool)
    ensures
        r == differs_at(blocks@, height, hash),
{
    let mut i: usize = 0;
    while i < blocks.len()
        invariant
            i <= blocks@.len(),
            forall|k: int|
                0 <= k < i ==> !((#[trigger] blocks@[k]).number == height && blocks@[k].hash
                    != hash),
        decreases blocks@.len() - i,
    {
        match blocks.get(i) {
            Some(entry) => {
                if entry.number == height && entry.hash != hash {
                    return true;
                }
            },
            None => {},
        }
        i += 1;
    }
    false
}

/// Every height that `chain` answers for is the height of the block it
/// answers with.
pub open spec fn is_consistent(chain: Map<u64, Block>) -> bool {
    forall|h: u64| chain.dom().contains(h) ==> (#[trigger] chain[h]).number == h
}

/// What a node whose blocks are `chain` answers when asked for `height`.
pub open spec fn answer_of(chain: Map<u64, Block>, height: u64) -> Result<Block, ChainError> {
    if chain.dom().contains(height) {
        Ok(chain[height])
    } else {
        Err(ChainError::NotFound)
    }
}

/// The window after a pass whose open heights are `pending`, each answered
/// from `chain`, up to the end of the pass or its first failure.
pub open spec fn pass_against(s: Seq<Block>, pending: Seq<u64>, chain: Map<u64, Block>) -> Seq<
    Block,
>
    decreases pending.len(),
{
    if pending.len() == 0 {
        s
    } else {
        let fetched = answer_of(chain, pending[0]);
        pass_against(window_after(s, pending, fetched), pending_after(pending, fetched), chain)
    }
}

/// The entry agrees with `chain`: the node, asked for the entry's height,
/// answers with a block of the entry's hash.
pub open spec fn agrees(entry: Block, chain: Map<u64, Block>) -> bool {
    chain.dom().contains(entry.number) && chain[entry.number].hash == entry.hash
}

/// One answer for its own height leaves every height in place, brings all
/// entries at that height to the hash of the answer, and changes no entry
/// at another height.
pub proof fn lemma_reconciled_at(s: Seq<Block>, height: u64, fetched: Block)
    requires
        fetched.number == height,
    ensures
        reconciled_at(s, height, fetched).len() == s.len(),
        heights(reconciled_at(s, height, fetched)) == heights(s),
        forall|i: int|
            0 <= i < s.len() && s[i].number == height ==> (#[trigger] reconciled_at(
                s,
                height,
                fetched,
            )[i]).hash == fetched.hash,
        forall|i: int|
            0 <= i < s.len() && s[i].number != height ==> #[trigger] reconciled_at(
                s,
                height,
                fetched,
            )[i] == s[i],
{
}

/// A pass against a consistent chain keeps the length and every height, and
/// an entry that agrees with the chain still does after the pass.
pub proof fn lemma_pass_keeps(s: Seq<Block>, pending: Seq<u64>, chain: Map<u64, Block>)
    requires
        is_consistent(chain),
    ensures
        pass_against(s, pending, chain).len() == s.len(),
        heights(pass_against(s, pending, chain)) == heights(s),
        forall|i: int|
            0 <= i < s.len() && agrees(s[i], chain) ==> agrees(
                #[trigger] pass_against(s, pending, chain)[i],
                chain,
            ),
    decreases pending.len(),
{
    if pending.len() > 0 {
        let h = pending[0];
        let fetched = answer_of(chain, h);
        let mended = window_after(s, pending, fetched);
        let left = pending_after(pending, fetched);
        if chain.dom().contains(h) {
            lemma_reconciled_at(s, h, chain[h]);
        }
        lemma_pass_keeps(mended, left, chain);
    }
}

/// An entry that a pass against a consistent chain has reached with every
/// question answered agrees with the chain after the pass: asked again for
/// the entry's height, the node answers with the entry's hash. The pass
/// reaches the entry at position `i` where the node has a block for the
/// height of every entry from `i` to the tip.
pub proof fn lemma_pass_reaches_fixed_point(s: Seq<Block>, chain: Map<u64, Block>, i: int)
    requires
        is_consistent(chain),
        0 <= i < s.len(),
        forall|k: int| i <= k < s.len() ==> chain.dom().contains(#[trigger] s[k].number),
    ensures
        pass_against(s, heights(s).reverse(), chain).len() == s.len(),
        pass_against(s, heights(s).reverse(), chain)[i].number == s[i].number,
        agrees(pass_against(s, heights(s).reverse(), chain)[i], chain),
{
    let order = heights(s).reverse();
    lemma_pass_settles(s, order, chain, s.len() - 1 - i, i);
    lemma_pass_keeps(s, order, chain);
    assert(heights(pass_against(s, order, chain))[i] == heights(s)[i]);
}

/// Where the first `j + 1` questions of a pass are answered, the entries at
/// the height of the last of them agree with the chain after the pass.
proof fn lemma_pass_settles(
    s: Seq<Block>,
    pending: Seq<u64>,
    chain: Map<u64, Block>,
    j: int,
    i: int,
)
    requires
        is_consistent(chain),
        0 <= j < pending.len(),
        forall|m: int| 0 <= m <= j ==> chain.dom().contains(#[trigger] pending[m]),
        0 <= i < s.len(),
        s[i].number == pending[j],
    ensures
        pass_against(s, pending, chain).len() == s.len(),
        agrees(pass_against(s, pending, chain)[i], chain),
    decreases j,
{
    let h = pending[0];
    let fetched = answer_of(chain, h);
    let mended = window_after(s, pending, fetched);
    let left = pending_after(pending, fetched);
    lemma_reconciled_at(s, h, chain[h]);
    if j == 0 {
        lemma_pass_keeps(mended, left, chain);
    } else {
        lemma_pass_settles(mended, left, chain, j - 1, i);
    }
}

/// The hash tells the block: an entry of `s` that has the hash of the
/// chain's block at its height is that block.
pub open spec fn hash_tells_block(s: Seq<Block>, chain: Map<u64, Block>) -> bool {
    forall|i: int| 0 <= i < s.len() && agrees(#[trigger] s[i], chain) ==> s[i] == chain[s[i].number]
}

/// The chain's blocks are linked: each names as its parent the chain's
/// block one height below, where the chain has one.
pub open spec fn is_linked_chain(chain: Map<u64, Block>) -> bool {
    forall|h: u64|
        h > 0 && chain.dom().contains(h) && chain.dom().contains((h - 1) as u64) ==> (
        #[trigger] chain[h]).parent_hash == chain[(h - 1) as u64].hash
}

/// After a pass against a consistent chain, each entry is either what it
/// was before the pass or the chain's block at its height.
pub proof fn lemma_pass_substitutes(s: Seq<Block>, pending: Seq<u64>, chain: Map<u64, Block>)
    requires
        is_consistent(chain),
    ensures
        pass_against(s, pending, chain).len() == s.len(),
        forall|i: int|
            0 <= i < s.len() ==> (#[trigger] pass_against(s, pending, chain)[i]) == s[i] || (
            chain.dom().contains(s[i].number) && pass_against(s, pending, chain)[i]
                == chain[s[i].number]),
    decreases pending.len(),
{
    if pending.len() > 0 {
        let h = pending[0];
        let fetched = answer_of(chain, h);
        let mended = window_after(s, pending, fetched);
        let left = pending_after(pending, fetched);
        if chain.dom().contains(h) {
            lemma_reconciled_at(s, h, chain[h]);
        }
        lemma_pass_substitutes(mended, left, chain);
    }
}

/// Where the hash tells the block and the node has a block for every
/// height of the window, a pass leaves the window holding, at each
/// position, the chain's block at the height that stood there.
pub proof fn lemma_complete_pass_installs_chain(s: Seq<Block>, chain: Map<u64, Block>)
    requires
        is_consistent(chain),
        hash_tells_block(s, chain),
        forall|k: int| 0 <= k < s.len() ==> chain.dom().contains(#[trigger] s[k].number),
    ensures
        pass_against(s, heights(s).reverse(), chain).len() == s.len(),
        forall|i: int|
            0 <= i < s.len() ==> #[trigger] pass_against(s, heights(s).reverse(), chain)[i]
                == chain[s[i].number],
{
    let r = pass_against(s, heights(s).reverse(), chain);
    lemma_pass_substitutes(s, heights(s).reverse(), chain);
    assert forall|i: int| 0 <= i < s.len() implies #[trigger] r[i] == chain[s[i].number] by {
        lemma_pass_reaches_fixed_point(s, chain, i);
    }
}

/// A window over consecutive heights, repaired against a linked chain that
/// has a block for each of them, is a chain again: the heights are the same
/// as before, and each entry names the entry before it as its parent.
pub proof fn lemma_complete_pass_restores_linkage(s: Seq<Block>, chain: Map<u64, Block>)
    requires
        is_consistent(chain),
        is_linked_chain(chain),
        hash_tells_block(s, chain),
        forall|k: int| 0 <= k < s.len() ==> chain.dom().contains(#[trigger] s[k].number),
        forall|k: int| 0 < k < s.len() ==> (#[trigger] s[k]).number == s[k - 1].number + 1,
    ensures
        heights(pass_against(s, heights(s).reverse(), chain)) == heights(s),
        crate::block::is_chain(pass_against(s, heights(s).reverse(), chain)),
{
    lemma_complete_pass_installs_chain(s, chain);
    lemma_pass_keeps(s, heights(s).reverse(), chain);
}

/// A window whose every entry agrees with the chain is left as it is by a
/// pass: repair has nothing more to do.
pub proof fn lemma_pass_on_settled_window(s: Seq<Block>, pending: Seq<u64>, chain: Map<u64, Block>)
    requires
        forall|i: int| 0 <= i < s.len() ==> agrees(#[trigger] s[i], chain),
    ensures
        pass_against(s, pending, chain) == s,
    decreases pending.len(),
{
    if pending.len() > 0 {
        let fetched = answer_of(chain, pending[0]);
        lemma_pass_on_settled_window(s, pending_after(pending, fetched), chain);
    }
}

} // verus!
