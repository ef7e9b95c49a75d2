//! The registry of subscribers, and what has to be delivered to whom when
//! an event is published.
//!
//! A subscriber is known to the registry by an identity of the caller's
//! choosing. Publishing does not call anything: it returns the deliveries,
//! one for each subscriber of the event, in the order in which they
//! subscribed, and the caller makes them before it goes on.

use crate::block::{copy_blocks, Block};
use vstd::prelude::*;

verus! {

/// The identity under which a subscriber is registered and removed.
pub type Subscriber = u64;

/// The kinds of event that can be subscribed to.
#[derive(Clone, Copy, Debug, PartialEq, Eq, Structural, Hash)]
pub enum Event {
    /// The linkage at the tip of the window was found broken. Carries nothing.
    Reorg,
    /// A block was appended to the window. Carries the window as it is then.
    BlocksChanged,
}

/// One delivery: `subscriber` is to be told of `event`, with `blocks` as
/// what the event carries.
#[derive(Debug)]
pub struct Notification {
    pub subscriber: Subscriber,
    pub event: Event,
    pub blocks: Option<Vec<Block>>,
}

/// A delivery as the contracts speak of it.
pub struct NotificationView {
    pub subscriber: Subscriber,
    pub event: Event,
    pub blocks: Option<Seq<Block>>,
}

/// What an event carries, as the contracts speak of it.
pub open spec fn carried(blocks: Option<Vec<Block>>) -> Option<Seq<Block>> {
    match blocks {
        Some(blocks) => Some(blocks@),
        None => None,
    }
}

impl View for Notification {
    type V = NotificationView;

    open spec fn view(&self) -> NotificationView {
        NotificationView {
            subscriber: self.subscriber,
            event: self.event,
            blocks: carried(self.blocks),
        }
    }
}

/// The deliveries in `v`, each by its view.
pub open spec fn notification_views(v: Seq<Notification>) -> Seq<NotificationView> {
    v.map_values(|n: Notification| n@)
}

/// One delivery of `event` with `blocks` for each of `subscribers`, in their
/// order.
pub open spec fn deliveries(
    subscribers: Seq<Subscriber>,
    event: Event,
    blocks: Option<Seq<Block>>,
) -> Seq<NotificationView> {
    Seq::new(
        subscribers.len(),
        |i: int| NotificationView { subscriber: subscribers[i], event, blocks },
    )
}

/// `subscribers` without `listener`, the others in their order.
pub open spec fn without(subscribers: Seq<Subscriber>, listener: Subscriber) -> Seq<Subscriber> {
    subscribers.filter(other_than(listener))
}

/// The test that a removal keeps subscribers by.
pub open spec fn other_than(listener: Subscriber) -> spec_fn(Subscriber) -> bool {
    |s: Subscriber| s != listener
}

/// For each kind of event, the subscribers in the order in which they
/// subscribed. No subscriber stands twice in one list.
#[derive(Debug)]
pub struct Publisher {
    reorg: Vec<Subscriber>,
    blocks_changed: Vec<Subscriber>,
}

impl Default for Publisher {
    /// The registry without any subscriber.
    fn default() -> (p: Self)
        ensures
            forall|e: Event| p.listeners(e) == Seq::<Subscriber>::empty(),
    {
        Publisher { reorg: Vec::new(), blocks_changed: Vec::new() }
    }
}

impl Publisher {
    #[verifier::type_invariant]
    spec fn each_listed_once(&self) -> bool {
        &&& self.reorg@.no_duplicates()
        &&& self.blocks_changed@.no_duplicates()
    }

    /// The subscribers of `event`, first subscribed first.
    pub closed spec fn listeners(&self, event: Event) -> Seq<Subscriber> {
        match event {
            Event::Reorg => self.reorg@,
            Event::BlocksChanged => self.blocks_changed@,
        }
    }

    /// Registers `listener` for `event_type`, behind those already
    /// registered. A listener that is registered for this event already
    /// keeps its place, and nothing changes.
    pub fn subscribe(&mut self, event_type: Event, listener: Subscriber)
        ensures
            final(self).listeners(event_type) == (if old(self).listeners(event_type).contains(
                listener,
            ) {
                old(self).listeners(event_type)
            } else {
                old(self).listeners(event_type).push(listener)
            }),
            forall|e: Event| e != event_type ==> final(self).listeners(e) == old(self).listeners(e),
            forall|e: Event| final(self).listeners(e).no_duplicates(),
    {
        proof {
            use_type_invariant(&*self);
        }
        match event_type {
            Event::Reorg => {
                let list = with_listener(&self.reorg, listener);
                self.reorg = list;
            },
            Event::BlocksChanged => {
                let list = with_listener(&self.blocks_changed, listener);
                self.blocks_changed = list;
            },
        }
    }

    /// Removes `listener` from the subscribers of `event_type`. The others
    /// keep their order. Where it is not registered, nothing changes.
    pub fn unsubscribe(&mut self, event_type: Event, listener: Subscriber)
        ensures
            final(self).listeners(event_type) == without(
                old(self).listeners(event_type),
                listener,
            ),
            !final(self).listeners(event_type).contains(listener),
            !old(self).listeners(event_type).contains(listener) ==> final(self).listeners(
                event_type,
            ) == old(self).listeners(event_type),
            forall|e: Event| e != event_type ==> final(self).listeners(e) == old(self).listeners(e),
            forall|e: Event| final(self).listeners(e).no_duplicates(),
    {
        proof {
            use_type_invariant(&*self);
            lemma_without(old(self).listeners(event_type), listener);
        }
        match event_type {
            Event::Reorg => {
                let rest = remove_listener(&self.reorg, listener);
                self.reorg = rest;
            },
            Event::BlocksChanged => {
                let rest = remove_listener(&self.blocks_changed, listener);
                self.blocks_changed = rest;
            },
        }
    }

    /// What has to be delivered when `event` is published with `blocks` as
    /// what it carries: one delivery to each subscriber of `event`, in the
    /// order of subscription, each with a copy of `blocks`. Where nobody
    /// subscribed, there is nothing to deliver.
    pub fn publish(&self, event: Event, blocks: Option<Vec<Block>>) -> (out: Vec<Notification>)
        ensures
            notification_views(out@) == deliveries(self.listeners(event), event, carried(blocks)),
    {
        let list = match event {
            Event::Reorg => &self.reorg,
            Event::BlocksChanged => &self.blocks_changed,
        };
        let mut out: Vec<Notification> = Vec::new();
        let mut i: usize = 0;
        while i < list.len()
            invariant
                i <= list.len(),
                out@.len() == i,
                forall|k: int|
                    0 <= k < i ==> (#[trigger] out@[k])@ == (NotificationView {
                        subscriber: list@[k],
                        event,
                        blocks: carried(blocks),
                    }),
            decreases list.len() - i,
        {
            let copy = match &blocks {
                Some(blocks) => Some(copy_blocks(blocks)),
                None => None,
            };
            out.push(Notification { subscriber: list[i], event, blocks: copy });
            i += 1;
        }
        assert(notification_views(out@) =~= deliveries(
            self.listeners(event),
            event,
            carried(blocks),
        ));
        out
    }

    /// What has to be delivered when a reorganization is detected: one
    /// delivery without blocks to each subscriber of `Event::Reorg`, in the
    /// order of subscription; none where nobody subscribed.
    pub fn reorg(&self) -> (out: Vec<Notification>)
        ensures
            notification_views(out@) == deliveries(self.listeners(Event::Reorg), Event::Reorg, None),
    {
        self.publish(Event::Reorg, None)
    }

    /// What has to be delivered when the window has changed: to each
    /// subscriber of `Event::BlocksChanged`, in the order of subscription, a
    /// delivery with a copy of `blocks`; none where nobody subscribed.
    pub fn blocks_changed(&self, blocks: Vec<Block>) -> (out: Vec<Notification>)
        ensures
            notification_views(out@) == deliveries(
                self.listeners(Event::BlocksChanged),
                Event::BlocksChanged,
                Some(blocks@),
            ),
    {
        self.publish(Event::BlocksChanged, Some(blocks))
    }
}

/// `list` with `listener` at its end, unless it stands in `list` already.
fn with_listener(list: &Vec<Subscriber>, listener: Subscriber) -> (out: Vec<Subscriber>)
    ensures
        out@ == (if list@.contains(listener) {
            list@
        } else {
            list@.push(listener)
        }),
        list@.no_duplicates() ==> out@.no_duplicates(),
{
    let mut out: Vec<Subscriber> = Vec::new();
    let mut listed = false;
    let mut i: usize = 0;
    while i < list.len()
        invariant
            i <= list.len(),
            out@ == list@.take(i as int),
            listed == list@.take(i as int).contains(listener),
        decreases list.len() - i,
    {
        proof {
            lemma_contains_step(list@, i as int, listener);
        }
        if list[i] == listener {
            listed = true;
        }
        out.push(list[i]);
        i += 1;
    }
    assert(list@.take(list@.len() as int) == list@);
    if !listed {
        out.push(listener);
    }
    out
}

/// `list` without `listener`.
fn remove_listener(list: &Vec<Subscriber>, listener: Subscriber) -> (rest: Vec<Subscriber>)
    ensures
        rest@ == without(list@, listener),
        !rest@.contains(listener),
        list@.no_duplicates() ==> rest@.no_duplicates(),
{
    let mut rest: Vec<Subscriber> = Vec::new();
    let mut i: usize = 0;
    while i < list.len()
        invariant
            i <= list.len(),
            rest@ == without(list@.take(i as int), listener),
        decreases list.len() - i,
    {
        proof {
            reveal(Seq::filter);
            assert(list@.take(i + 1).drop_last() == list@.take(i as int));
        }
        if list[i] != listener {
            rest.push(list[i]);
        }
        i += 1;
    }
    proof {
        assert(list@.take(list@.len() as int) == list@);
        lemma_without(list@, listener);
    }
    rest
}

/// What is left after a removal: the removed listener is gone, a list that
/// held nobody twice still holds nobody twice, and a list that did not hold
/// the listener is as it was.
pub proof fn lemma_without(subscribers: Seq<Subscriber>, listener: Subscriber)
    ensures
        !without(subscribers, listener).contains(listener),
        subscribers.no_duplicates() ==> without(subscribers, listener).no_duplicates(),
        !subscribers.contains(listener) ==> without(subscribers, listener) == subscribers,
    decreases subscribers.len(),
{
    reveal(Seq::filter);
    if subscribers.len() > 0 {
        let head = subscribers.drop_last();
        let last = subscribers.last();
        lemma_without(head, listener);
        if subscribers.no_duplicates() && without(head, listener).contains(last) {
            head.lemma_filter_contains_rev(other_than(listener), last);
        }
    }
}

/// A prefix grown by one entry holds `listener` where the prefix did or the
/// entry is `listener`.
proof fn lemma_contains_step(list: Seq<Subscriber>, i: int, listener: Subscriber)
    requires
        0 <= i < list.len(),
    ensures
        list.take(i + 1).contains(listener) == (list.take(i).contains(listener) || list[i]
            == listener),
{
    let seen = list.take(i);
    let next = list.take(i + 1);
    if next.contains(listener) && list[i] != listener {
        let k = choose|k: int| 0 <= k < next.len() && next[k] == listener;
        assert(seen[k] == listener);
    }
    if seen.contains(listener) {
        let k = choose|k: int| 0 <= k < seen.len() && seen[k] == listener;
        assert(next[k] == listener);
    }
    if list[i] == listener {
        assert(next[i] == listener);
    }
}

/// Subscribing a listener that was not registered and then removing it
/// leaves the subscribers as they were.
pub proof fn lemma_subscribe_then_unsubscribe(subscribers: Seq<Subscriber>, listener: Subscriber)
    requires
        !subscribers.contains(listener),
    ensures
        without(subscribers.push(listener), listener) == subscribers,
{
    reveal(Seq::filter);
    lemma_without(subscribers, listener);
    assert(subscribers.push(listener).drop_last() == subscribers);
}

} // verus!
