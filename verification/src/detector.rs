//! The check for a reorganization at the tip of the window.
//!
//! The check is shallow on purpose. It looks at the tip and at the entry one
//! height below it, and says nothing of a divergence further down: the
//! repair that follows a positive answer goes through the whole window.

use crate::block::{is_ascending, is_chain, is_linked, lemma_chain_is_ascending, Block};
use crate::window::BlockWindow;
use vstd::prelude::*;

verus! {

/// Position `i` holds the entry that the check compares the tip with: the
/// nearest entry below the tip's position that stands one height under the
/// tip.
pub open spec fn is_parent_position(s: Seq<Block>, i: int) -> bool {
    &&& 0 <= i < s.len() - 1
    &&& s[i].number + 1 == s.last().number
    &&& forall|j: int| i < j < s.len() - 1 ==> (#[trigger] s[j]).number + 1 != s.last().number
}

/// The tip does not name as its parent the entry one height below it. Where
/// the window holds no such entry, or fewer than two entries, this is false.
pub open spec fn reorg_at_tip(s: Seq<Block>) -> bool {
    exists|i: int| #[trigger] is_parent_position(s, i) && s.last().parent_hash != s[i].hash
}

/// Whether the linkage at the tip of `blocks` is broken: true exactly when
/// an entry one height below the tip exists and the tip's parent hash is not
/// that entry's hash.
pub fn check_reorg(blocks: &BlockWindow) -> (reorg: bool)
    ensures
        reorg == reorg_at_tip(blocks@),
{
    let tip = match blocks.last() {
        Some(block) => block,
        None => {
            return false;
        },
    };
    let n = blocks.len();
    let mut i: usize = n - 1;
    while i > 0
        invariant
            n == blocks@.len(),
            n > 0,
            i <= n - 1,
            tip == blocks@.last(),
            forall|j: int| i <= j < n - 1 ==> (#[trigger] blocks@[j]).number + 1 != tip.number,
        decreases i,
    {
        i -= 1;
        let entry = match blocks.get(i) {
            Some(block) => block,
            None => {
                return false;
            },
        };
        if tip.number > 0 && entry.number == tip.number - 1 {
            assert(is_parent_position(blocks@, i as int));
            return tip.parent_hash != entry.hash;
        }
    }
    false
}

/// In an ascending window the entry one height below the tip, where there is
/// one, is the only entry at that height, and the check compares the tip
/// with it; where there is none, the check is negative.
pub proof fn lemma_check_reorg_ascending(s: Seq<Block>)
    requires
        s.len() >= 2,
        is_ascending(s),
    ensures
        reorg_at_tip(s) <==> exists|i: int|
            0 <= i < s.len() - 1 && (#[trigger] s[i]).number + 1 == s.last().number
                && s.last().parent_hash != s[i].hash,
        forall|i: int, j: int|
            0 <= i < s.len() - 1 && 0 <= j < s.len() - 1 && (#[trigger] s[i]).number + 1
                == s.last().number && (#[trigger] s[j]).number + 1 == s.last().number ==> i == j,
        (forall|i: int| 0 <= i < s.len() - 1 ==> (#[trigger] s[i]).number + 1 != s.last().number)
            ==> !reorg_at_tip(s),
{
    if reorg_at_tip(s) {
        let i = choose|i: int| #[trigger] is_parent_position(s, i) && s.last().parent_hash != s[i].hash;
        assert(s[i].number + 1 == s.last().number && s.last().parent_hash != s[i].hash);
    }
    if exists|i: int|
        0 <= i < s.len() - 1 && (#[trigger] s[i]).number + 1 == s.last().number
            && s.last().parent_hash != s[i].hash {
        let i = choose|i: int|
            0 <= i < s.len() - 1 && (#[trigger] s[i]).number + 1 == s.last().number
                && s.last().parent_hash != s[i].hash;
        assert(is_parent_position(s, i));
    }
}

/// In an ascending window whose entries each name the entry before them as
/// parent, the check is negative.
pub proof fn lemma_linked_window_has_no_reorg(s: Seq<Block>)
    requires
        is_ascending(s),
        is_linked(s),
    ensures
        !reorg_at_tip(s),
{
    if reorg_at_tip(s) {
        let i = choose|i: int| #[trigger] is_parent_position(s, i) && s.last().parent_hash != s[i].hash;
        let below = s.len() - 2;
        assert(i == below) by {
            if i < below {
                assert(s[i].number < s[below].number < s.last().number);
            }
        }
        assert(s.last().parent_hash == s[below].hash);
    }
}

/// Blocks that form a chain are appended one by one to an empty window, and
/// the check runs after each: it is negative every time.
pub proof fn lemma_appending_a_chain_never_reports(s: Seq<Block>, n: int)
    requires
        is_chain(s),
        0 <= n <= s.len(),
    ensures
        !reorg_at_tip(s.take(n)),
{
    crate::block::lemma_chain_prefix(s, n);
    lemma_chain_is_ascending(s.take(n));
    lemma_linked_window_has_no_reorg(s.take(n));
}

} // verus!
