//! How far below the finalized tip the window reaches, and the trimming that
//! keeps it there.

use crate::block::{is_ascending, Block};
use crate::window::{at_or_above, retained, BlockWindow};
use vstd::prelude::*;

verus! {

/// How many heights below the finalized tip a block is still kept: so far
/// behind it a block may in practice still be replaced.
pub const RETENTION_DEPTH: u64 = 11;

/// Height `number` lies no more than `RETENTION_DEPTH` below the finalized
/// tip at `finalized_number`.
pub open spec fn within_retention(number: u64, finalized_number: u64) -> bool {
    number >= finalized_number - RETENTION_DEPTH
}

/// The test that trimming keeps entries by.
pub open spec fn kept_at(finalized_number: u64) -> spec_fn(Block) -> bool {
    |b: Block| within_retention(b.number, finalized_number)
}

/// The lowest height that is kept when the finalized tip stands at
/// `finalized_number`: `RETENTION_DEPTH` below it, and 0 where the chain is
/// not yet that high.
pub open spec fn floor_below(finalized_number: u64) -> u64 {
    if finalized_number >= RETENTION_DEPTH {
        (finalized_number - RETENTION_DEPTH) as u64
    } else {
        0
    }
}

/// The lowest height that is kept when the finalized tip stands at
/// `finalized_number`.
pub fn retention_floor(finalized_number: u64) -> (floor: u64)
    ensures
        floor == floor_below(finalized_number),
        forall|h: u64| #[trigger] within_retention(h, finalized_number) <==> h >= floor,
{
    if finalized_number >= RETENTION_DEPTH {
        finalized_number - RETENTION_DEPTH
    } else {
        0
    }
}

/// Drops from `blocks` what lies more than `RETENTION_DEPTH` below the
/// finalized tip at `finalized_number`: exactly the entries within
/// retention stay, in their order.
pub fn trim_extra_finalized_blocks(blocks: &mut BlockWindow, finalized_number: u64)
    ensures
        final(blocks)@ == old(blocks)@.filter(kept_at(finalized_number)),
        final(blocks)@ == retained(old(blocks)@, floor_below(finalized_number)),
        forall|i: int|
            0 <= i < final(blocks)@.len() ==> within_retention(
                (#[trigger] final(blocks)@[i]).number,
                finalized_number,
            ),
        is_ascending(old(blocks)@) ==> is_ascending(final(blocks)@),
{
    let floor = retention_floor(finalized_number);
    assert(kept_at(finalized_number) =~= at_or_above(floor));
    blocks.retain_from(floor);
}

} // verus!
