use reorg_watcher::block::{Block, BlockHash};
use reorg_watcher::blocks_observer::{Event, Notification, Publisher};

fn block(number: u64) -> Block {
    Block {
        number,
        hash: BlockHash { hi: 0, lo: number as u128 },
        parent_hash: BlockHash { hi: 0, lo: number.wrapping_sub(1) as u128 },
    }
}

fn subscribers(notifications: &[Notification]) -> Vec<u64> {
    notifications.iter().map(|n| n.subscriber).collect()
}

#[test]
fn publishing_without_subscribers_delivers_nothing() {
    let p = Publisher::default();
    assert!(p.reorg().is_empty());
    assert!(p.blocks_changed(vec![block(1)]).is_empty());
}

#[test]
fn reorg_is_delivered_in_subscription_order() {
    let mut p = Publisher::default();
    p.subscribe(Event::Reorg, 30);
    p.subscribe(Event::Reorg, 10);
    p.subscribe(Event::Reorg, 20);
    let out = p.reorg();
    assert_eq!(subscribers(&out), vec![30, 10, 20]);
    for n in &out {
        assert_eq!(n.event, Event::Reorg);
        assert_eq!(n.blocks, None);
    }
}

#[test]
fn blocks_changed_carries_the_blocks_to_each_subscriber() {
    let mut p = Publisher::default();
    p.subscribe(Event::BlocksChanged, 2);
    p.subscribe(Event::BlocksChanged, 1);
    let blocks = vec![block(5), block(6)];
    let out = p.blocks_changed(blocks.clone());
    assert_eq!(subscribers(&out), vec![2, 1]);
    for n in &out {
        assert_eq!(n.event, Event::BlocksChanged);
        assert_eq!(n.blocks, Some(blocks.clone()));
    }
}

#[test]
fn blocks_changed_with_an_empty_window() {
    let mut p = Publisher::default();
    p.subscribe(Event::BlocksChanged, 2);
    let out = p.blocks_changed(vec![]);
    assert_eq!(out.len(), 1);
    assert_eq!(out[0].blocks, Some(vec![]));
}

#[test]
fn events_are_kept_apart() {
    let mut p = Publisher::default();
    p.subscribe(Event::Reorg, 1);
    p.subscribe(Event::BlocksChanged, 2);
    assert_eq!(subscribers(&p.reorg()), vec![1]);
    assert_eq!(subscribers(&p.blocks_changed(vec![])), vec![2]);
    p.unsubscribe(Event::BlocksChanged, 1);
    p.unsubscribe(Event::Reorg, 2);
    assert_eq!(subscribers(&p.reorg()), vec![1]);
    assert_eq!(subscribers(&p.blocks_changed(vec![])), vec![2]);
}

#[test]
fn one_subscriber_may_listen_to_both_events() {
    let mut p = Publisher::default();
    p.subscribe(Event::Reorg, 7);
    p.subscribe(Event::BlocksChanged, 7);
    assert_eq!(subscribers(&p.reorg()), vec![7]);
    assert_eq!(subscribers(&p.blocks_changed(vec![])), vec![7]);
}

#[test]
fn subscribing_twice_keeps_the_first_place() {
    let mut p = Publisher::default();
    p.subscribe(Event::Reorg, 1);
    p.subscribe(Event::Reorg, 2);
    p.subscribe(Event::Reorg, 1);
    assert_eq!(subscribers(&p.reorg()), vec![1, 2]);
    p.subscribe(Event::BlocksChanged, 4);
    p.subscribe(Event::BlocksChanged, 4);
    assert_eq!(subscribers(&p.blocks_changed(vec![])), vec![4]);
}

#[test]
fn unsubscribe_removes_by_identity() {
    let mut p = Publisher::default();
    p.subscribe(Event::Reorg, 1);
    p.subscribe(Event::Reorg, 2);
    p.subscribe(Event::Reorg, 3);
    p.unsubscribe(Event::Reorg, 2);
    assert_eq!(subscribers(&p.reorg()), vec![1, 3]);
    p.unsubscribe(Event::Reorg, 1);
    assert_eq!(subscribers(&p.reorg()), vec![3]);
    p.unsubscribe(Event::Reorg, 3);
    assert!(p.reorg().is_empty());
}

#[test]
fn unsubscribe_of_a_stranger_changes_nothing() {
    let mut p = Publisher::default();
    p.unsubscribe(Event::Reorg, 9);
    p.unsubscribe(Event::BlocksChanged, 9);
    p.subscribe(Event::BlocksChanged, 1);
    p.unsubscribe(Event::BlocksChanged, 9);
    assert_eq!(subscribers(&p.blocks_changed(vec![])), vec![1]);
    assert!(p.reorg().is_empty());
}

#[test]
fn subscribing_again_after_removal_goes_to_the_end() {
    let mut p = Publisher::default();
    p.subscribe(Event::Reorg, 1);
    p.subscribe(Event::Reorg, 2);
    p.unsubscribe(Event::Reorg, 1);
    p.subscribe(Event::Reorg, 1);
    assert_eq!(subscribers(&p.reorg()), vec![2, 1]);
}

#[test]
fn publish_delivers_the_event_with_what_it_carries() {
    let mut p = Publisher::default();
    p.subscribe(Event::BlocksChanged, 8);
    p.subscribe(Event::BlocksChanged, 3);
    p.subscribe(Event::Reorg, 5);

    let out = p.publish(Event::BlocksChanged, Some(vec![block(1), block(2)]));
    assert_eq!(subscribers(&out), vec![8, 3]);
    for n in &out {
        assert_eq!(n.event, Event::BlocksChanged);
        assert_eq!(n.blocks, Some(vec![block(1), block(2)]));
    }

    let out = p.publish(Event::Reorg, None);
    assert_eq!(subscribers(&out), vec![5]);
    assert_eq!(out[0].event, Event::Reorg);
    assert_eq!(out[0].blocks, None);
}

#[test]
fn publish_to_nobody_is_no_error() {
    let p = Publisher::default();
    assert!(p.publish(Event::Reorg, None).is_empty());
    assert!(p.publish(Event::BlocksChanged, Some(vec![block(1)])).is_empty());
}

#[test]
fn subscribe_then_unsubscribe_restores_the_registry() {
    let mut p = Publisher::default();
    p.subscribe(Event::BlocksChanged, 1);
    p.subscribe(Event::BlocksChanged, 2);
    p.subscribe(Event::BlocksChanged, 3);
    p.unsubscribe(Event::BlocksChanged, 3);
    assert_eq!(subscribers(&p.blocks_changed(vec![])), vec![1, 2]);
}
