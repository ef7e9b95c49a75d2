use reorg_watcher::block::{Block, BlockHash};
use reorg_watcher::chain::ChainError;
use reorg_watcher::reconciler::{reorganize_blocks, Reconciliation};
use reorg_watcher::window::BlockWindow;

fn h(n: u64) -> BlockHash {
    BlockHash { hi: 0, lo: n as u128 }
}

fn stale(number: u64) -> Block {
    Block { number, hash: h(number), parent_hash: h(number.wrapping_sub(1)) }
}

fn fresh(number: u64) -> Block {
    Block { number, hash: h(1000 + number), parent_hash: h(999 + number) }
}

fn window(blocks: &[Block]) -> BlockWindow {
    let mut w = BlockWindow::new();
    for b in blocks {
        w.append(*b);
    }
    w
}

fn run_pass(
    w: &mut BlockWindow,
    node: &dyn Fn(u64) -> Result<Block, ChainError>,
) -> (Vec<u64>, Result<(), ChainError>) {
    let mut asked = Vec::new();
    let mut pass = Reconciliation::begin(w);
    while let Some(height) = pass.next_height() {
        asked.push(height);
        if let Err(e) = reorganize_blocks(w, &mut pass, node(height)) {
            assert_eq!(pass.next_height(), None);
            return (asked, Err(e));
        }
    }
    (asked, Ok(()))
}

#[test]
fn pass_over_an_empty_window_asks_nothing() {
    let w = BlockWindow::new();
    let pass = Reconciliation::begin(&w);
    assert_eq!(pass.next_height(), None);
}

#[test]
fn pass_asks_newest_first() {
    let mut w = window(&[stale(5), stale(6), stale(7)]);
    let (asked, r) = run_pass(&mut w, &|n| Ok(stale(n)));
    assert_eq!(asked, vec![7, 6, 5]);
    assert_eq!(r, Ok(()));
}

#[test]
fn pass_leaves_matching_entries_alone() {
    let mut w = window(&[stale(5), stale(6), stale(7)]);
    let same_hash_other_parent =
        |n: u64| Ok(Block { number: n, hash: h(n), parent_hash: h(424242) });
    let (_, r) = run_pass(&mut w, &same_hash_other_parent);
    assert_eq!(r, Ok(()));
    assert_eq!(w.snapshot(), vec![stale(5), stale(6), stale(7)]);
}

#[test]
fn pass_replaces_what_differs() {
    let mut w = window(&[stale(5), stale(6), stale(7)]);
    let node = |n: u64| if n >= 6 { Ok(fresh(n)) } else { Ok(stale(n)) };
    let (_, r) = run_pass(&mut w, &node);
    assert_eq!(r, Ok(()));
    assert_eq!(w.snapshot(), vec![stale(5), fresh(6), fresh(7)]);
}

#[test]
fn pass_goes_on_below_an_entry_that_matches() {
    let mut w = window(&[stale(5), stale(6), stale(7)]);
    let node = |n: u64| if n == 5 { Ok(fresh(n)) } else { Ok(stale(n)) };
    let (asked, r) = run_pass(&mut w, &node);
    assert_eq!(asked, vec![7, 6, 5]);
    assert_eq!(r, Ok(()));
    assert_eq!(w.snapshot(), vec![fresh(5), stale(6), stale(7)]);
}

#[test]
fn after_a_pass_the_node_confirms_every_entry() {
    let mut w = window(&[stale(3), stale(4), stale(6), stale(9)]);
    let node = |n: u64| if n % 2 == 0 { Ok(fresh(n)) } else { Ok(stale(n)) };
    let (_, r) = run_pass(&mut w, &node);
    assert_eq!(r, Ok(()));
    for entry in w.snapshot() {
        assert_eq!(node(entry.number).unwrap().hash, entry.hash);
    }
    let settled = w.snapshot();
    let (_, again) = run_pass(&mut w, &node);
    assert_eq!(again, Ok(()));
    assert_eq!(w.snapshot(), settled);
}

#[test]
fn failed_fetch_ends_the_pass_and_keeps_what_was_repaired() {
    let mut w = window(&[stale(5), stale(6), stale(7), stale(8)]);
    let node = |n: u64| if n == 6 { Err(ChainError::Unavailable) } else { Ok(fresh(n)) };
    let (asked, r) = run_pass(&mut w, &node);
    assert_eq!(asked, vec![8, 7, 6]);
    assert_eq!(r, Err(ChainError::Unavailable));
    assert_eq!(w.snapshot(), vec![stale(5), stale(6), fresh(7), fresh(8)]);
}

#[test]
fn missing_block_is_reported_as_not_found() {
    let mut w = window(&[stale(5)]);
    let (_, r) = run_pass(&mut w, &|_| Err(ChainError::NotFound));
    assert_eq!(r, Err(ChainError::NotFound));
    assert_eq!(w.snapshot(), vec![stale(5)]);
}

#[test]
fn answer_to_a_finished_pass_changes_nothing() {
    let mut w = window(&[stale(5)]);
    let mut pass = Reconciliation::begin(&w);
    assert_eq!(reorganize_blocks(&mut w, &mut pass, Ok(stale(5))), Ok(()));
    assert_eq!(pass.next_height(), None);
    assert_eq!(reorganize_blocks(&mut w, &mut pass, Ok(fresh(5))), Ok(()));
    assert_eq!(w.snapshot(), vec![stale(5)]);
    assert_eq!(
        reorganize_blocks(&mut w, &mut pass, Err(ChainError::NotFound)),
        Err(ChainError::NotFound)
    );
    assert_eq!(w.snapshot(), vec![stale(5)]);
}

#[test]
fn pass_keeps_to_the_heights_it_began_with() {
    let mut w = window(&[stale(5), stale(6)]);
    let mut pass = Reconciliation::begin(&w);
    w.append(stale(7));
    assert_eq!(pass.next_height(), Some(6));
    assert_eq!(reorganize_blocks(&mut w, &mut pass, Ok(fresh(6))), Ok(()));
    w.retain_from(6);
    assert_eq!(pass.next_height(), Some(5));
    assert_eq!(reorganize_blocks(&mut w, &mut pass, Ok(fresh(5))), Ok(()));
    assert_eq!(pass.next_height(), None);
    assert_eq!(w.snapshot(), vec![fresh(6), stale(7)]);
}

#[test]
fn pass_never_removes_or_reorders() {
    let mut w = window(&[stale(9), stale(2), stale(5)]);
    let (asked, r) = run_pass(&mut w, &|n| Ok(fresh(n)));
    assert_eq!(asked, vec![5, 2, 9]);
    assert_eq!(r, Ok(()));
    assert_eq!(w.snapshot(), vec![fresh(9), fresh(2), fresh(5)]);
}
