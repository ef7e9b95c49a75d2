//! The window of recent blocks: an ordered buffer that is extended at the
//! tip, filled once at its front, trimmed from below and repaired in place.
//!
//! The window does not check what it is given. Its methods say exactly what
//! they do to the contents, and under which conditions the ascending order of
//! the heights survives them.

use crate::block::{copy_blocks, heights, is_ascending, lemma_ascending_by_heights, Block};
use vstd::prelude::*;

verus! {

/// The recent blocks, oldest first.
#[derive(Debug)]
pub struct BlockWindow {
    blocks: Vec<Block>,
}

impl View for BlockWindow {
    type V = Seq<Block>;

    closed spec fn view(&self) -> Seq<Block> {
        self.blocks@
    }
}

/// The test that `retain_from` keeps entries by.
pub open spec fn at_or_above(min_number: u64) -> spec_fn(Block) -> bool {
    |b: Block| b.number >= min_number
}

/// The entries of `s` at height `min_number` or above, in their order.
pub open spec fn retained(s: Seq<Block>, min_number: u64) -> Seq<Block> {
    s.filter(at_or_above(min_number))
}

/// Some entry of `s` stands at height `number`.
pub open spec fn holds_height(s: Seq<Block>, number: u64) -> bool {
    exists|i: int| 0 <= i < s.len() && (#[trigger] s[i]).number == number
}

/// `s` with `block` in the place of every entry at height `number`.
pub open spec fn replaced_at(s: Seq<Block>, number: u64, block: Block) -> Seq<Block> {
    Seq::new(
        s.len(),
        |i: int|
            if s[i].number == number {
                block
            } else {
                s[i]
            },
    )
}

impl BlockWindow {
    /// The empty window.
    pub fn new() -> (w: Self)
        ensures
            w@ == Seq::<Block>::empty(),
    {
        BlockWindow { blocks: Vec::new() }
    }

    /// The number of entries.
    pub fn len(&self) -> (n: usize)
        ensures
            n == self@.len(),
    {
        self.blocks.len()
    }

    /// Whether the window holds no entry.
    pub fn is_empty(&self) -> (r: bool)
        ensures
            r == (self@.len() == 0),
    {
        self.blocks.len() == 0
    }

    /// The entry at position `index`, counted from the oldest.
    pub fn get(&self, index: usize) -> (r: Option<Block>)
        ensures
            r == (if index < self@.len() {
                Some(self@[index as int])
            } else {
                None
            }),
    {
        if index < self.blocks.len() {
            Some(self.blocks[index])
        } else {
            None
        }
    }

    /// The most recent entry.
    pub fn last(&self) -> (r: Option<Block>)
        ensures
            r == (if self@.len() > 0 {
                Some(self@.last())
            } else {
                None
            }),
    {
        let n = self.blocks.len();
        if n > 0 {
            Some(self.blocks[n - 1])
        } else {
            None
        }
    }

    /// A copy of the contents, oldest first.
    pub fn snapshot(&self) -> (v: Vec<Block>)
        ensures
            v@ == self@,
    {
        copy_blocks(&self.blocks)
    }

    /// Adds `block` at the tip. Nothing is checked: the order of the heights
    /// survives where `block` stands above the tip it is put on.
    pub fn append(&mut self, block: Block)
        ensures
            final(self)@ == old(self)@.push(block),
            is_ascending(old(self)@) && (old(self)@.len() > 0 ==> old(self)@.last().number
                < block.number) ==> is_ascending(final(self)@),
    {
        self.blocks.push(block);
    }

    /// Puts the run `blocks` before the earliest entry. Nothing is checked:
    /// the order of the heights survives where the run is ascending and ends
    /// below the earliest entry.
    pub fn prepend_range(&mut self, blocks: Vec<Block>)
        ensures
            final(self)@ == blocks@ + old(self)@,
            is_ascending(blocks@) && is_ascending(old(self)@) && (blocks@.len() > 0 && old(
                self,
            )@.len() > 0 ==> blocks@.last().number < old(self)@.first().number) ==> is_ascending(
                final(self)@,
            ),
    {
        let mut run = blocks;
        run.append(&mut self.blocks);
        self.blocks = run;
    }

    /// Overwrites with `block` every entry at height `number`, where it
    /// stands, and says whether there was one. The length and the other
    /// entries stay; so do all heights where `block` is of height `number`.
    pub fn replace_in_place(&mut self, number: u64, block: Block) -> (found: bool)
        ensures
            final(self)@ == replaced_at(old(self)@, number, block),
            found == holds_height(old(self)@, number),
            block.number == number ==> heights(final(self)@) == heights(old(self)@),
            block.number == number && is_ascending(old(self)@) ==> is_ascending(final(self)@),
    {
        let ghost before = self.blocks@;
        let mut found = false;
        let mut i: usize = 0;
        while i < self.blocks.len()
            invariant
                i <= self.blocks.len(),
                self.blocks@.len() == before.len(),
                forall|k: int| 0 <= k < i ==> self.blocks@[k] == replaced_at(before, number, block)[k],
                forall|k: int| i <= k < before.len() ==> self.blocks@[k] == before[k],
                found == holds_height(before.take(i as int), number),
            decreases self.blocks.len() - i,
        {
            if self.blocks[i].number == number {
                self.blocks[i] = block;
                found = true;
                assert(before.take(i + 1)[i as int].number == number);
            } else {
                assert(holds_height(before.take(i + 1), number) == holds_height(
                    before.take(i as int),
                    number,
                )) by {
                    lemma_holds_height_step(before, i as int, number);
                }
            }
            i += 1;
        }
        proof {
            assert(before.take(before.len() as int) == before);
            if block.number == number {
                assert(heights(self.blocks@) =~= heights(before));
                lemma_ascending_by_heights(before, self.blocks@);
            }
        }
        found
    }

    /// Drops every entry below height `min_number`. The survivors keep their
    /// order, so an ascending window stays ascending.
    pub fn retain_from(&mut self, min_number: u64)
        ensures
            final(self)@ == retained(old(self)@, min_number),
            forall|i: int|
                0 <= i < final(self)@.len() ==> (#[trigger] final(self)@[i]).number >= min_number,
            is_ascending(old(self)@) ==> is_ascending(final(self)@),
    {
        let ghost before = self.blocks@;
        let mut kept: Vec<Block> = Vec::new();
        let mut i: usize = 0;
        while i < self.blocks.len()
            invariant
                i <= self.blocks.len(),
                self.blocks@ == before,
                kept@ == retained(before.take(i as int), min_number),
            decreases self.blocks.len() - i,
        {
            let b = self.blocks[i];
            proof {
                lemma_retained_step(before, i as int, min_number);
            }
            if b.number >= min_number {
                kept.push(b);
            }
            i += 1;
        }
        self.blocks = kept;
        proof {
            assert(before.take(before.len() as int) == before);
            lemma_retained_bounded(before, min_number);
            lemma_retained_ascending(before, min_number);
        }
    }
}

/// A prefix grown by an entry at another height holds `number` where the
/// prefix did.
proof fn lemma_holds_height_step(s: Seq<Block>, i: int, number: u64)
    requires
        0 <= i < s.len(),
        s[i].number != number,
    ensures
        holds_height(s.take(i + 1), number) == holds_height(s.take(i), number),
{
    let seen = s.take(i);
    let next = s.take(i + 1);
    if holds_height(next, number) {
        let k = choose|k: int| 0 <= k < next.len() && (#[trigger] next[k]).number == number;
        assert(seen[k].number == number);
    }
    if holds_height(seen, number) {
        let k = choose|k: int| 0 <= k < seen.len() && (#[trigger] seen[k]).number == number;
        assert(next[k].number == number);
    }
}

/// What `retained` makes of a prefix grown by one entry.
pub proof fn lemma_retained_step(s: Seq<Block>, i: int, min_number: u64)
    requires
        0 <= i < s.len(),
    ensures
        retained(s.take(i + 1), min_number) == (if s[i].number >= min_number {
            retained(s.take(i), min_number).push(s[i])
        } else {
            retained(s.take(i), min_number)
        }),
{
    reveal(Seq::filter);
    assert(s.take(i + 1).drop_last() == s.take(i));
}

/// Every entry that `retained` keeps stands at `min_number` or above.
pub proof fn lemma_retained_bounded(s: Seq<Block>, min_number: u64)
    ensures
        forall|i: int|
            0 <= i < retained(s, min_number).len() ==> (#[trigger] retained(
                s,
                min_number,
            )[i]).number >= min_number,
{
    let r = retained(s, min_number);
    assert forall|i: int| 0 <= i < r.len() implies (#[trigger] r[i]).number >= min_number by {
        s.lemma_filter_pred(at_or_above(min_number), i);
    }
}

/// `retained` is a subsequence: each survivor comes from a position of the
/// source, and later survivors from later positions.
pub proof fn lemma_retained_positions(s: Seq<Block>, min_number: u64) -> (at: Seq<int>)
    ensures
        at.len() == retained(s, min_number).len(),
        forall|k: int| 0 <= k < at.len() ==> 0 <= #[trigger] at[k] < s.len(),
        forall|k: int| 0 <= k < at.len() ==> retained(s, min_number)[k] == s[#[trigger] at[k]],
        forall|k: int, l: int| 0 <= k < l < at.len() ==> at[k] < at[l],
    decreases s.len(),
{
    reveal(Seq::filter);
    if s.len() == 0 {
        Seq::empty()
    } else {
        let rest = lemma_retained_positions(s.drop_last(), min_number);
        if s.last().number >= min_number {
            rest.push(s.len() - 1)
        } else {
            rest
        }
    }
}

/// Trimming an ascending run leaves an ascending run.
pub proof fn lemma_retained_ascending(s: Seq<Block>, min_number: u64)
    ensures
        is_ascending(s) ==> is_ascending(retained(s, min_number)),
{
    if is_ascending(s) {
        let at = lemma_retained_positions(s, min_number);
        let r = retained(s, min_number);
        assert forall|i: int, j: int| 0 <= i < j < r.len() implies r[i].number < r[j].number by {
            assert(r[i] == s[at[i]]);
            assert(r[j] == s[at[j]]);
        }
    }
}

/// Trimming twice at one height is trimming once.
pub proof fn lemma_retain_from_idempotent(s: Seq<Block>, min_number: u64)
    ensures
        retained(retained(s, min_number), min_number) == retained(s, min_number),
    decreases s.len(),
{
    reveal(Seq::filter);
    if s.len() > 0 {
        let rest = retained(s.drop_last(), min_number);
        lemma_retain_from_idempotent(s.drop_last(), min_number);
        assert(rest.push(s.last()).drop_last() == rest);
    }
}

/// Trimming at one height and then at another is trimming at the higher of
/// the two: as the finalized tip rises, only the last floor counts.
pub proof fn lemma_retain_from_composes(s: Seq<Block>, first: u64, second: u64)
    ensures
        retained(retained(s, first), second) == retained(
            s,
            if first >= second {
                first
            } else {
                second
            },
        ),
    decreases s.len(),
{
    reveal(Seq::filter);
    if s.len() > 0 {
        let rest = retained(s.drop_last(), first);
        lemma_retain_from_composes(s.drop_last(), first, second);
        assert(rest.push(s.last()).drop_last() == rest);
    }
}

} // verus!
