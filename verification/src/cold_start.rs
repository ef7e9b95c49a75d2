//! The one filling of the window before regular polling has caught up:
//! which heights to ask for, and what to do with the answers.

use crate::block::{is_ascending, Block};
use crate::chain::ChainError;
use crate::retention::{floor_below, retention_floor, within_retention, RETENTION_DEPTH};
use crate::window::BlockWindow;
use vstd::prelude::*;

verus! {

/// The heights from `first` to `last`, both included.
#[derive(Clone, Copy, Debug, PartialEq, Eq, Structural)]
pub struct HeightRange {
    pub first: u64,
    pub last: u64,
}

/// Height `h` is one that a cold start fills: no more than
/// `RETENTION_DEPTH` below the finalized tip, and below the newest block.
pub open spec fn in_cold_start(h: u64, finalized_number: u64, latest_number: u64) -> bool {
    finalized_number - RETENTION_DEPTH <= h <= latest_number - 1
}

/// The heights that a cold start asks for when the finalized tip stands at
/// `finalized_number` and the newest block at `latest_number`: from
/// `RETENTION_DEPTH` below the finalized tip up to one below the newest
/// block. `None` where no height lies in between.
pub open spec fn cold_start_heights(finalized_number: u64, latest_number: u64) -> Option<
    HeightRange,
> {
    if floor_below(finalized_number) < latest_number {
        Some(
            HeightRange {
                first: floor_below(finalized_number),
                last: (latest_number - 1) as u64,
            },
        )
    } else {
        None
    }
}

/// The heights to ask for at a cold start. The newest block itself is left
/// out: the first regular tick appends it.
pub fn cold_start_range(finalized_number: u64, latest_number: u64) -> (range: Option<HeightRange>)
    ensures
        range == cold_start_heights(finalized_number, latest_number),
        forall|h: u64| #[trigger]
            in_cold_start(h, finalized_number, latest_number) <==> (range matches Some(r)
                && r.first <= h <= r.last),
{
    let first = retention_floor(finalized_number);
    if first < latest_number {
        Some(HeightRange { first, last: latest_number - 1 })
    } else {
        None
    }
}

/// The blocks among `answers`, in their order; the failures are left out.
pub open spec fn fetched_blocks(answers: Seq<Result<Block, ChainError>>) -> Seq<Block> {
    answers.filter_map(
        |a: Result<Block, ChainError>|
            match a {
                Ok(block) => Some(block),
                Err(_) => None,
            },
    )
}

/// Installs what a cold start has fetched: the blocks among `fetched`, in
/// the order of the answers, are put before the earliest entry of `blocks`.
/// A failed answer costs its own block and nothing else. Nothing is checked
/// against what `blocks` holds already.
pub fn cold_start(blocks: &mut BlockWindow, fetched: Vec<Result<Block, ChainError>>)
    ensures
        final(blocks)@ == fetched_blocks(fetched@) + old(blocks)@,
        is_ascending(fetched_blocks(fetched@)) && is_ascending(old(blocks)@) && (fetched_blocks(
            fetched@,
        ).len() > 0 && old(blocks)@.len() > 0 ==> fetched_blocks(fetched@).last().number < old(
            blocks,
        )@.first().number) ==> is_ascending(final(blocks)@),
{
    let mut run: Vec<Block> = Vec::new();
    let mut i: usize = 0;
    while i < fetched.len()
        invariant
            i <= fetched.len(),
            run@ == fetched_blocks(fetched@.take(i as int)),
        decreases fetched.len() - i,
    {
        assert(fetched@.take(i + 1).drop_last() == fetched@.take(i as int));
        match fetched[i] {
            Ok(block) => {
                run.push(block);
            },
            Err(_) => {},
        }
        i += 1;
    }
    assert(fetched@.take(fetched@.len() as int) == fetched@);
    blocks.prepend_range(run);
}

/// `answers` are what the node gave for the heights from `first` upwards,
/// one after the other: each block among them stands at the height that it
/// was asked for.
pub open spec fn answers_from(answers: Seq<Result<Block, ChainError>>, first: u64) -> bool {
    forall|k: int|
        0 <= k < answers.len() ==> ((#[trigger] answers[k]) matches Ok(block) ==> block.number
            == first + k)
}

/// What is left of the answers for a run of heights is in ascending order
/// and within the run, whichever of the questions failed.
pub proof fn lemma_fetched_blocks_ascend(answers: Seq<Result<Block, ChainError>>, first: u64)
    requires
        answers_from(answers, first),
    ensures
        is_ascending(fetched_blocks(answers)),
        forall|i: int|
            0 <= i < fetched_blocks(answers).len() ==> first <= (#[trigger] fetched_blocks(
                answers,
            )[i]).number < first + answers.len(),
    decreases answers.len(),
{
    if answers.len() > 0 {
        lemma_fetched_blocks_ascend(answers.drop_last(), first);
    }
}

/// A cold start whose answers are for a run of heights that ends below the
/// earliest entry of an ascending window leaves the window ascending, gaps
/// and all.
pub proof fn lemma_cold_start_keeps_order(
    answers: Seq<Result<Block, ChainError>>,
    first: u64,
    window: Seq<Block>,
)
    requires
        answers_from(answers, first),
        is_ascending(window),
        window.len() > 0 ==> first + answers.len() <= window.first().number,
    ensures
        is_ascending(fetched_blocks(answers) + window),
{
    lemma_fetched_blocks_ascend(answers, first);
}

/// A cold start asks for nothing that trimming at the same finalized tip
/// would drop.
pub proof fn lemma_cold_start_is_within_retention(
    h: u64,
    finalized_number: u64,
    latest_number: u64,
)
    requires
        in_cold_start(h, finalized_number, latest_number),
    ensures
        within_retention(h, finalized_number),
        h < latest_number,
{
}

} // verus!
