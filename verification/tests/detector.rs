use reorg_watcher::block::{Block, BlockHash};
use reorg_watcher::detector::check_reorg;
use reorg_watcher::window::BlockWindow;

fn h(n: u64) -> BlockHash {
    BlockHash { hi: 1, lo: n as u128 }
}

fn linked(number: u64) -> Block {
    Block { number, hash: h(number), parent_hash: h(number.wrapping_sub(1)) }
}

fn window(blocks: &[Block]) -> BlockWindow {
    let mut w = BlockWindow::new();
    for b in blocks {
        w.append(*b);
    }
    w
}

#[test]
fn empty_window_has_no_reorg() {
    assert!(!check_reorg(&BlockWindow::new()));
}

#[test]
fn single_entry_has_no_reorg() {
    assert!(!check_reorg(&window(&[linked(5)])));
}

#[test]
fn linked_tip_has_no_reorg() {
    assert!(!check_reorg(&window(&[linked(5), linked(6), linked(7)])));
}

#[test]
fn appending_a_chain_never_reports() {
    let mut w = BlockWindow::new();
    for n in 100..140 {
        w.append(linked(n));
        assert!(!check_reorg(&w));
    }
}

#[test]
fn tip_with_another_parent_is_a_reorg() {
    let tip = Block { number: 7, hash: h(7), parent_hash: h(999) };
    assert!(check_reorg(&window(&[linked(5), linked(6), tip])));
}

#[test]
fn hashes_that_differ_in_the_high_half_differ() {
    let parent = Block { number: 6, hash: BlockHash { hi: 1, lo: 6 }, parent_hash: h(5) };
    let tip = Block { number: 7, hash: h(7), parent_hash: BlockHash { hi: 2, lo: 6 } };
    assert!(check_reorg(&window(&[parent, tip])));
}

#[test]
fn missing_parent_height_is_not_a_reorg() {
    let tip = Block { number: 9, hash: h(9), parent_hash: h(999) };
    assert!(!check_reorg(&window(&[linked(5), linked(6), tip])));
}

#[test]
fn only_the_tip_is_checked() {
    let broken = Block { number: 6, hash: h(6), parent_hash: h(999) };
    assert!(!check_reorg(&window(&[linked(5), broken, linked(7)])));
}

#[test]
fn parent_is_found_behind_other_entries() {
    let stray = Block { number: 3, hash: h(3), parent_hash: h(2) };
    let tip = Block { number: 7, hash: h(7), parent_hash: h(999) };
    assert!(check_reorg(&window(&[linked(6), stray, tip])));
    let good_tip = Block { number: 7, hash: h(7), parent_hash: h(6) };
    assert!(!check_reorg(&window(&[linked(6), stray, good_tip])));
}

#[test]
fn nearest_entry_at_the_parent_height_decides() {
    let old = Block { number: 6, hash: h(60), parent_hash: h(5) };
    let new = Block { number: 6, hash: h(61), parent_hash: h(5) };
    let tip = Block { number: 7, hash: h(7), parent_hash: h(61) };
    assert!(!check_reorg(&window(&[old, new, tip])));
    assert!(check_reorg(&window(&[new, old, tip])));
}

#[test]
fn tip_at_height_zero_has_no_parent() {
    let genesis = Block { number: 0, hash: h(0), parent_hash: h(12345) };
    let stray = Block { number: u64::MAX, hash: h(1), parent_hash: h(2) };
    assert!(!check_reorg(&window(&[stray, genesis])));
}

#[test]
fn ascending_window_reports_exactly_a_mismatch_with_the_height_below() {
    for parent_of_tip in [h(6), h(5), h(7), h(0)] {
        let tip = Block { number: 7, hash: h(7), parent_hash: parent_of_tip };
        let expected = parent_of_tip != h(6);
        assert_eq!(check_reorg(&window(&[linked(4), linked(6), tip])), expected);
        assert!(!check_reorg(&window(&[linked(4), linked(5), tip])));
    }
}
