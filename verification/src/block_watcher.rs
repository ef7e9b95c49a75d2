//! The polling loop as a machine: one step takes what has just happened and
//! returns what is to be done next.
//!
//! The machine does not wait, ask or call. Its caller does: it starts a
//! tick, puts the machine's questions to the chain node, hands the answers
//! back, makes the deliveries, starts the background work that the machine
//! asks for, and sleeps when told. Between two steps the window is free for
//! that background work.
//!
//! The first tick also asks for the cold start, which fills the window from
//! below while the tick goes on; no later tick does.
//!
//! Every tick that gets its answers ends with the trimming of the window,
//! whether or not a block came in. A question that fails ends the tick on
//! the spot: nothing is published and nothing is trimmed, and the machine
//! waits for the next tick.

use crate::block::Block;
use crate::blocks_observer::{
    deliveries, notification_views, Event, Notification, NotificationView, Publisher, Subscriber,
};
use crate::chain::{BlockSelector, ChainError};
use crate::detector::{check_reorg, reorg_at_tip};
use crate::window::BlockWindow;
use vstd::prelude::*;

verus! {

/// The seconds from one tick to the next.
pub const POLL_INTERVAL_SECS: u64 = 5;

/// Where a tick stands.
#[derive(Clone, Copy, Debug, PartialEq, Eq, Structural)]
pub enum TickPhase {
    /// Before the first tick: the window has not been filled yet.
    ColdStart,
    /// Between ticks.
    Idle,
    /// The node was asked for the height of its head. `tip` is the height of
    /// the window's tip as the tick began, 0 for an empty window.
    AwaitingHead { tip: u64 },
    /// The node was asked for its newest block.
    AwaitingBlock,
}

/// What has happened.
#[derive(Clone, Copy, Debug)]
pub enum WatchEvent {
    /// The time of a tick has come.
    Tick,
    /// The node's answer to the question for the height of its head.
    Head(Result<u64, ChainError>),
    /// The node's answer to the question for a block.
    Fetched(Result<Block, ChainError>),
}

/// What is to be done, by whoever drives the machine.
#[derive(Debug)]
pub enum WatchAction {
    /// Start the cold start, in the background.
    ColdStart,
    /// Ask the node for the height of its head, and hand in the answer.
    QueryHead,
    /// Ask the node for this block, and hand in the answer.
    Fetch(BlockSelector),
    /// Publish this event: make these deliveries, in this order, before
    /// anything that follows.
    Publish(Event, Vec<Notification>),
    /// Start a repair pass over the window, in the background.
    Reconcile,
    /// Fetch the finalized tip and trim the window, in the background.
    Trim,
    /// Wait for the next tick.
    Sleep,
}

/// An action as the contracts speak of it.
pub enum WatchActionView {
    ColdStart,
    QueryHead,
    Fetch(BlockSelector),
    Publish(Event, Seq<NotificationView>),
    Reconcile,
    Trim,
    Sleep,
}

impl View for WatchAction {
    type V = WatchActionView;

    open spec fn view(&self) -> WatchActionView {
        match self {
            WatchAction::ColdStart => WatchActionView::ColdStart,
            WatchAction::QueryHead => WatchActionView::QueryHead,
            WatchAction::Fetch(selector) => WatchActionView::Fetch(*selector),
            WatchAction::Publish(event, notifications) => WatchActionView::Publish(
                *event,
                notification_views(notifications@),
            ),
            WatchAction::Reconcile => WatchActionView::Reconcile,
            WatchAction::Trim => WatchActionView::Trim,
            WatchAction::Sleep => WatchActionView::Sleep,
        }
    }
}

/// The actions in `v`, each by its view.
pub open spec fn action_views(v: Seq<WatchAction>) -> Seq<WatchActionView> {
    v.map_values(|a: WatchAction| a@)
}

/// The height of the tip of `s`, 0 where `s` is empty.
pub open spec fn tip_number(s: Seq<Block>) -> u64 {
    if s.len() > 0 {
        s.last().number
    } else {
        0
    }
}

/// What is asked of the node once it has said where its head stands: its
/// newest block where the head is above `last_block_number`, nothing where
/// it is not or where the node gave no answer.
pub open spec fn block_to_fetch(last_block_number: u64, head: Result<u64, ChainError>) -> Option<
    BlockSelector,
> {
    match head {
        Ok(head_number) if head_number > last_block_number => Some(BlockSelector::Latest),
        _ => None,
    }
}

/// The phase after `event` has come in phase `phase`.
pub open spec fn phase_after(phase: TickPhase, s: Seq<Block>, event: WatchEvent) -> TickPhase {
    match (phase, event) {
        (TickPhase::ColdStart, WatchEvent::Tick) => TickPhase::AwaitingHead { tip: tip_number(s) },
        (TickPhase::Idle, WatchEvent::Tick) => TickPhase::AwaitingHead { tip: tip_number(s) },
        (TickPhase::AwaitingHead { tip }, WatchEvent::Head(head)) => {
            if block_to_fetch(tip, head) is Some {
                TickPhase::AwaitingBlock
            } else {
                TickPhase::Idle
            }
        },
        (TickPhase::AwaitingBlock, WatchEvent::Fetched(_)) => TickPhase::Idle,
        _ => phase,
    }
}

/// The window after `event` has come in phase `phase`: a block that was
/// waited for is appended, and nothing else changes the window.
pub open spec fn blocks_after(phase: TickPhase, s: Seq<Block>, event: WatchEvent) -> Seq<Block> {
    match (phase, event) {
        (TickPhase::AwaitingBlock, WatchEvent::Fetched(Ok(block))) => s.push(block),
        _ => s,
    }
}

/// What is to be done once `block` has been appended and the window is `s`:
/// the change is published, with `s` as what it carries; where the linkage
/// at the tip is broken, that is published and a repair pass asked for;
/// then trimming is asked for, and the tick is over.
pub open spec fn actions_on_append(
    s: Seq<Block>,
    changed: Seq<Subscriber>,
    reorg: Seq<Subscriber>,
) -> Seq<WatchActionView> {
    let published = seq![
        WatchActionView::Publish(
            Event::BlocksChanged,
            deliveries(changed, Event::BlocksChanged, Some(s)),
        ),
    ];
    let repair = if reorg_at_tip(s) {
        seq![
            WatchActionView::Publish(Event::Reorg, deliveries(reorg, Event::Reorg, None)),
            WatchActionView::Reconcile,
        ]
    } else {
        Seq::empty()
    };
    published + repair + seq![WatchActionView::Trim, WatchActionView::Sleep]
}

/// What is to be done after `event` has come in phase `phase`, with
/// `changed` and `reorg` as the subscribers of the two kinds of event. The
/// first tick asks for the cold start before anything else. A head that is
/// not above the tip leaves the trimming and the wait; a failure leaves the
/// wait alone. An event that the phase does not wait for asks for nothing.
pub open spec fn actions_after(
    phase: TickPhase,
    s: Seq<Block>,
    changed: Seq<Subscriber>,
    reorg: Seq<Subscriber>,
    event: WatchEvent,
) -> Seq<WatchActionView> {
    match (phase, event) {
        (TickPhase::ColdStart, WatchEvent::Tick) => seq![
            WatchActionView::ColdStart,
            WatchActionView::QueryHead,
        ],
        (TickPhase::Idle, WatchEvent::Tick) => seq![WatchActionView::QueryHead],
        (TickPhase::AwaitingHead { tip }, WatchEvent::Head(head)) => {
            match block_to_fetch(tip, head) {
                Some(selector) => seq![WatchActionView::Fetch(selector)],
                None => if head is Ok {
                    seq![WatchActionView::Trim, WatchActionView::Sleep]
                } else {
                    seq![WatchActionView::Sleep]
                },
            }
        },
        (TickPhase::AwaitingBlock, WatchEvent::Fetched(Ok(block))) => actions_on_append(
            s.push(block),
            changed,
            reorg,
        ),
        (TickPhase::AwaitingBlock, WatchEvent::Fetched(Err(_))) => seq![WatchActionView::Sleep],
        _ => Seq::empty(),
    }
}

/// The cold start is asked for once: by the first tick, before anything
/// else, and by no step after it.
pub proof fn lemma_cold_start_runs_once(
    phase: TickPhase,
    s: Seq<Block>,
    changed: Seq<Subscriber>,
    reorg: Seq<Subscriber>,
    event: WatchEvent,
)
    ensures
        phase == TickPhase::ColdStart && event is Tick ==> actions_after(
            phase,
            s,
            changed,
            reorg,
            event,
        )[0] == WatchActionView::ColdStart && phase_after(phase, s, event) != TickPhase::ColdStart,
        forall|j: int|
            0 <= j < actions_after(phase, s, changed, reorg, event).len() && actions_after(
                phase,
                s,
                changed,
                reorg,
                event,
            )[j] == WatchActionView::ColdStart ==> j == 0 && phase == TickPhase::ColdStart
                && event is Tick,
        phase != TickPhase::ColdStart ==> phase_after(phase, s, event) != TickPhase::ColdStart,
{
}

/// A question that the node fails to answer ends the tick in silence: the
/// window stays as it is, nothing is published, no background work is asked
/// for, and what is left to do, if anything, is to wait.
pub proof fn lemma_failed_question_is_silent(
    phase: TickPhase,
    s: Seq<Block>,
    changed: Seq<Subscriber>,
    reorg: Seq<Subscriber>,
    event: WatchEvent,
)
    requires
        event matches WatchEvent::Head(Err(_)) || event matches WatchEvent::Fetched(Err(_)),
    ensures
        blocks_after(phase, s, event) == s,
        phase_after(phase, s, event) == TickPhase::Idle || phase_after(phase, s, event) == phase,
        forall|i: int|
            0 <= i < actions_after(phase, s, changed, reorg, event).len() ==> actions_after(
                phase,
                s,
                changed,
                reorg,
                event,
            )[i] == WatchActionView::Sleep,
{
}

/// A step that ends a tick asks for the trimming just before the wait,
/// unless a question has failed.
pub proof fn lemma_tick_ends_with_trimming(
    phase: TickPhase,
    s: Seq<Block>,
    changed: Seq<Subscriber>,
    reorg: Seq<Subscriber>,
    event: WatchEvent,
)
    requires
        actions_after(phase, s, changed, reorg, event).len() > 0,
        actions_after(phase, s, changed, reorg, event).last() == WatchActionView::Sleep,
        !(event matches WatchEvent::Head(Err(_))),
        !(event matches WatchEvent::Fetched(Err(_))),
    ensures
        actions_after(phase, s, changed, reorg, event).len() >= 2,
        actions_after(phase, s, changed, reorg, event)[actions_after(
            phase,
            s,
            changed,
            reorg,
            event,
        ).len() - 2] == WatchActionView::Trim,
        phase_after(phase, s, event) == TickPhase::Idle,
{
}

/// A repair pass is asked for only where the linkage at the tip of the
/// window, as the step leaves it, is broken, and only directly after the
/// reorganization has been published.
pub proof fn lemma_reorg_is_published_before_repair(
    phase: TickPhase,
    s: Seq<Block>,
    changed: Seq<Subscriber>,
    reorg: Seq<Subscriber>,
    event: WatchEvent,
    j: int,
)
    requires
        0 <= j < actions_after(phase, s, changed, reorg, event).len(),
        actions_after(phase, s, changed, reorg, event)[j] == WatchActionView::Reconcile,
    ensures
        reorg_at_tip(blocks_after(phase, s, event)),
        j > 0,
        actions_after(phase, s, changed, reorg, event)[j - 1] == WatchActionView::Publish(
            Event::Reorg,
            deliveries(reorg, Event::Reorg, None),
        ),
{
}

/// A change to the window is published only by the step that has appended
/// a block, as the first thing it asks for, and what is delivered carries
/// the window with that block at its tip.
pub proof fn lemma_change_is_published_after_append(
    phase: TickPhase,
    s: Seq<Block>,
    changed: Seq<Subscriber>,
    reorg: Seq<Subscriber>,
    event: WatchEvent,
    j: int,
)
    requires
        0 <= j < actions_after(phase, s, changed, reorg, event).len(),
        actions_after(phase, s, changed, reorg, event)[j] matches WatchActionView::Publish(
            Event::BlocksChanged,
            _,
        ),
    ensures
        j == 0,
        event matches WatchEvent::Fetched(Ok(block)) && blocks_after(phase, s, event) == s.push(
            block,
        ),
        actions_after(phase, s, changed, reorg, event)[j] == WatchActionView::Publish(
            Event::BlocksChanged,
            deliveries(changed, Event::BlocksChanged, Some(blocks_after(phase, s, event))),
        ),
{
}

/// What to ask the node for, given the height of the window's tip and the
/// node's answer on the height of its head: its newest block where the head
/// is above the tip, nothing else.
pub fn fetch_new_block(last_block_number: u64, head: Result<u64, ChainError>) -> (r: Option<
    BlockSelector,
>)
    ensures
        r == block_to_fetch(last_block_number, head),
{
    match head {
        Ok(head_number) => {
            if head_number > last_block_number {
                Some(BlockSelector::Latest)
            } else {
                None
            }
        },
        Err(_) => None,
    }
}

/// The window, the registry of its subscribers, and the phase of the tick.
#[derive(Debug)]
pub struct BlockWatcher {
    pub blocks: BlockWindow,
    pub event_publisher: Publisher,
    pub phase: TickPhase,
}

impl Default for BlockWatcher {
    /// A watcher before its first tick, with an empty window and nobody
    /// subscribed.
    fn default() -> (watcher: Self)
        ensures
            watcher.blocks@ == Seq::<Block>::empty(),
            forall|e: Event| watcher.event_publisher.listeners(e) == Seq::<Subscriber>::empty(),
            watcher.phase == TickPhase::ColdStart,
    {
        BlockWatcher::new(Publisher::default())
    }
}

impl BlockWatcher {
    /// A watcher before its first tick, with an empty window and
    /// `event_publisher` as its registry.
    pub fn new(event_publisher: Publisher) -> (watcher: Self)
        ensures
            watcher.blocks@ == Seq::<Block>::empty(),
            watcher.event_publisher == event_publisher,
            watcher.phase == TickPhase::ColdStart,
    {
        BlockWatcher { blocks: BlockWindow::new(), event_publisher, phase: TickPhase::ColdStart }
    }

    /// The height of the window's tip, 0 where the window is empty.
    pub fn tip(&self) -> (tip: u64)
        ensures
            tip == tip_number(self.blocks@),
    {
        match self.blocks.last() {
            Some(block) => block.number,
            None => 0,
        }
    }

    /// One step of the loop: takes `event` and returns what is to be done,
    /// in order.
    ///
    /// The first tick asks for the cold start. Every tick asks for the
    /// height of the node's head. Where that is above the tip that the
    /// window had as the tick began, the newest block is asked for; it is
    /// appended, and the change is published. The linkage at the tip is then
    /// checked, and where it is broken, that is published before a repair
    /// pass is asked for. A tick that got its answers ends with the
    /// trimming, whether or not a block came in and whether or not the
    /// linkage was broken. A failed question ends the tick with nothing but
    /// the wait. The registry is not changed.
    pub fn watch(&mut self, event: WatchEvent) -> (actions: Vec<WatchAction>)
        ensures
            final(self).phase == phase_after(old(self).phase, old(self).blocks@, event),
            final(self).blocks@ == blocks_after(old(self).phase, old(self).blocks@, event),
            final(self).event_publisher == old(self).event_publisher,
            action_views(actions@) == actions_after(
                old(self).phase,
                old(self).blocks@,
                old(self).event_publisher.listeners(Event::BlocksChanged),
                old(self).event_publisher.listeners(Event::Reorg),
                event,
            ),
    {
        let mut actions: Vec<WatchAction> = Vec::new();
        match (self.phase, event) {
            (TickPhase::ColdStart, WatchEvent::Tick) => {
                self.phase = TickPhase::AwaitingHead { tip: self.tip() };
                actions.push(WatchAction::ColdStart);
                actions.push(WatchAction::QueryHead);
            },
            (TickPhase::Idle, WatchEvent::Tick) => {
                self.phase = TickPhase::AwaitingHead { tip: self.tip() };
                actions.push(WatchAction::QueryHead);
            },
            (TickPhase::AwaitingHead { tip }, WatchEvent::Head(head)) => {
                match fetch_new_block(tip, head) {
                    Some(selector) => {
                        self.phase = TickPhase::AwaitingBlock;
                        actions.push(WatchAction::Fetch(selector));
                    },
                    None => {
                        self.phase = TickPhase::Idle;
                        if head.is_ok() {
                            actions.push(WatchAction::Trim);
                        }
                        actions.push(WatchAction::Sleep);
                    },
                }
            },
            (TickPhase::AwaitingBlock, WatchEvent::Fetched(Ok(block))) => {
                self.phase = TickPhase::Idle;
                self.blocks.append(block);
                let changed = self.event_publisher.blocks_changed(self.blocks.snapshot());
                actions.push(WatchAction::Publish(Event::BlocksChanged, changed));
                if check_reorg(&self.blocks) {
                    let reorg = self.event_publisher.reorg();
                    actions.push(WatchAction::Publish(Event::Reorg, reorg));
                    actions.push(WatchAction::Reconcile);
                }
                actions.push(WatchAction::Trim);
                actions.push(WatchAction::Sleep);
            },
            (TickPhase::AwaitingBlock, WatchEvent::Fetched(Err(_))) => {
                self.phase = TickPhase::Idle;
                actions.push(WatchAction::Sleep);
            },
            _ => {},
        }
        assert(action_views(actions@) =~= actions_after(
            old(self).phase,
            old(self).blocks@,
            old(self).event_publisher.listeners(Event::BlocksChanged),
            old(self).event_publisher.listeners(Event::Reorg),
            event,
        ));
        actions
    }
}

} // verus!
