use reorg_watcher::block::{Block, BlockHash};
use reorg_watcher::chain::ChainError;
use reorg_watcher::cold_start::{cold_start, cold_start_range, HeightRange};
use reorg_watcher::retention::{retention_floor, trim_extra_finalized_blocks, RETENTION_DEPTH};
use reorg_watcher::window::BlockWindow;

fn block(number: u64) -> Block {
    Block {
        number,
        hash: BlockHash { hi: 0, lo: number as u128 },
        parent_hash: BlockHash { hi: 0, lo: number.wrapping_sub(1) as u128 },
    }
}

fn numbers(w: &BlockWindow) -> Vec<u64> {
    w.snapshot().iter().map(|b| b.number).collect()
}

#[test]
fn retention_depth_is_eleven() {
    assert_eq!(RETENTION_DEPTH, 11);
}

#[test]
fn cold_start_range_reaches_from_retention_to_below_latest() {
    assert_eq!(cold_start_range(100, 115), Some(HeightRange { first: 89, last: 114 }));
}

#[test]
fn cold_start_range_on_a_young_chain_starts_at_zero() {
    assert_eq!(cold_start_range(4, 9), Some(HeightRange { first: 0, last: 8 }));
    assert_eq!(cold_start_range(11, 12), Some(HeightRange { first: 0, last: 11 }));
    assert_eq!(cold_start_range(0, 1), Some(HeightRange { first: 0, last: 0 }));
}

#[test]
fn cold_start_range_is_empty_without_a_height_in_between() {
    assert_eq!(cold_start_range(0, 0), None);
    assert_eq!(cold_start_range(100, 89), None);
    assert_eq!(cold_start_range(100, 50), None);
    assert_eq!(cold_start_range(100, 90), Some(HeightRange { first: 89, last: 89 }));
}

#[test]
fn cold_start_range_at_the_top_of_the_heights() {
    assert_eq!(
        cold_start_range(u64::MAX, u64::MAX),
        Some(HeightRange { first: u64::MAX - 11, last: u64::MAX - 1 })
    );
}

#[test]
fn cold_start_populates_the_fetched_range() {
    let range = cold_start_range(100, 115).unwrap();
    let fetched: Vec<Result<Block, ChainError>> =
        (range.first..=range.last).map(|n| Ok(block(n))).collect();
    let mut w = BlockWindow::new();
    cold_start(&mut w, fetched);
    assert_eq!(numbers(&w), (89..=114).collect::<Vec<u64>>());
    w.append(block(115));
    assert_eq!(w.len(), 27);
    assert_eq!(w.last(), Some(block(115)));
}

#[test]
fn cold_start_goes_before_what_a_tick_has_appended() {
    let mut w = BlockWindow::new();
    w.append(block(115));
    cold_start(&mut w, vec![Ok(block(113)), Ok(block(114))]);
    assert_eq!(numbers(&w), vec![113, 114, 115]);
}

#[test]
fn cold_start_tolerates_failed_fetches() {
    let mut w = BlockWindow::new();
    w.append(block(20));
    cold_start(
        &mut w,
        vec![
            Err(ChainError::Unavailable),
            Ok(block(16)),
            Err(ChainError::NotFound),
            Ok(block(18)),
            Ok(block(19)),
            Err(ChainError::Unavailable),
        ],
    );
    assert_eq!(numbers(&w), vec![16, 18, 19, 20]);
}

#[test]
fn cold_start_with_nothing_fetched_changes_nothing() {
    let mut w = BlockWindow::new();
    w.append(block(20));
    cold_start(&mut w, vec![Err(ChainError::NotFound)]);
    assert_eq!(numbers(&w), vec![20]);
    cold_start(&mut w, vec![]);
    assert_eq!(numbers(&w), vec![20]);
}

#[test]
fn retention_floor_lies_eleven_below() {
    assert_eq!(retention_floor(100), 89);
    assert_eq!(retention_floor(105), 94);
    assert_eq!(retention_floor(11), 0);
    assert_eq!(retention_floor(12), 1);
    assert_eq!(retention_floor(10), 0);
    assert_eq!(retention_floor(0), 0);
    assert_eq!(retention_floor(u64::MAX), u64::MAX - 11);
}

#[test]
fn trim_follows_the_finalized_tip() {
    let mut w = BlockWindow::new();
    for n in 89..=114 {
        w.append(block(n));
    }
    trim_extra_finalized_blocks(&mut w, 100);
    assert_eq!(numbers(&w), (89..=114).collect::<Vec<u64>>());
    trim_extra_finalized_blocks(&mut w, 105);
    assert_eq!(numbers(&w), (94..=114).collect::<Vec<u64>>());
}

#[test]
fn trim_on_a_young_chain_keeps_everything() {
    let mut w = BlockWindow::new();
    for n in 0..=6 {
        w.append(block(n));
    }
    trim_extra_finalized_blocks(&mut w, 5);
    assert_eq!(numbers(&w), vec![0, 1, 2, 3, 4, 5, 6]);
}

#[test]
fn trim_can_empty_the_window() {
    let mut w = BlockWindow::new();
    for n in 10..=12 {
        w.append(block(n));
    }
    trim_extra_finalized_blocks(&mut w, 24);
    assert!(w.is_empty());
}
