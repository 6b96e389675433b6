//! The subscribers of one agent.

use tokio::sync::mpsc::{Sender, UnboundedReceiver, UnboundedSender};
use vstd::prelude::*;

use crate::channel::{
    event_capacity, event_queue, event_tries, lemma_delivered_push, lemma_left_push,
    notice_channel, notice_queue, notice_source, notice_tries, send_notice, sent_events,
    sent_notices, try_send, Delivery, HandleUse,
};
use crate::event::{AgentEvent, EventView};
use crate::status::{Code, Status, StatusView};

verus! {

/// One who is told the events of an agent.
#[derive(Debug)]
pub struct Subscriber {
    /// Where the events go.
    pub sender: Sender<AgentEvent>,
    /// Where the notice goes that the subscription is broken off.
    pub terminate: UnboundedSender<Status>,
}

/// A [`Subscriber`] by its two queues, what its handles for them were used for,
/// and what was put into each.
#[verifier::ext_equal]
pub struct SubscriberView {
    pub event_queue: int,
    pub capacity: int,
    pub event_tries: Seq<HandleUse>,
    pub events: Seq<EventView>,
    pub notice_queue: int,
    pub notice_tries: Seq<(StatusView, bool)>,
    pub notices: Seq<StatusView>,
}

impl View for Subscriber {
    type V = SubscriberView;

    open spec fn view(&self) -> SubscriberView {
        SubscriberView {
            event_queue: event_queue(self.sender),
            capacity: event_capacity(self.sender),
            event_tries: event_tries(self.sender),
            events: sent_events(self.sender),
            notice_queue: notice_queue(self.terminate),
            notice_tries: notice_tries(self.terminate),
            notices: sent_notices(self.terminate),
        }
    }
}

/// What became of an event at one subscriber.
#[derive(Clone, Copy, Debug, PartialEq, Eq, Structural)]
pub enum Outcome {
    /// It is in the subscriber's queue.
    Delivered,
    /// The queue had no room and the subscriber misses it.
    Skipped,
    /// The queue had no room, and without this event the subscription is
    /// worth nothing. The flag says whether the notice of it could be left.
    Overflowed { notified: bool },
    /// The subscriber had gone.
    Gone,
}

impl Outcome {
    /// The subscription ends with this outcome.
    pub open spec fn leaves(self) -> bool {
        self is Overflowed || self is Gone
    }

    /// How the attempt to deliver the event went.
    pub open spec fn delivery(self) -> Delivery {
        match self {
            Outcome::Delivered => Delivery::Sent,
            Outcome::Skipped => Delivery::Full,
            Outcome::Overflowed { .. } => Delivery::Full,
            Outcome::Gone => Delivery::Closed,
        }
    }

    /// Whether the subscription ends with this outcome.
    pub fn ends_subscription(self) -> (ends: bool)
        ensures
            ends == self.leaves(),
    {
        match self {
            Outcome::Delivered => false,
            Outcome::Skipped => false,
            Outcome::Overflowed { .. } => true,
            Outcome::Gone => true,
        }
    }
}

/// The notice to a subscriber whose queue had no room for an event that it
/// must not miss.
pub open spec fn overflow_notice() -> StatusView {
    StatusView {
        code: Code::ResourceExhausted,
        message: "subscription queue overflowed on a non-droppable event"@,
    }
}

/// What an attempt to deliver an event comes to. Only a full queue asks
/// whether the event is droppable, and only a broken subscription is notified.
pub open spec fn outcome_of(delivery: Delivery, droppable: bool, notified: bool) -> Outcome {
    match delivery {
        Delivery::Sent => Outcome::Delivered,
        Delivery::Full => if droppable {
            Outcome::Skipped
        } else {
            Outcome::Overflowed { notified }
        },
        Delivery::Closed => Outcome::Gone,
    }
}

/// The outcomes that an event can have: one that is droppable breaks no
/// subscription off, and one that is not is never missed in silence.
pub open spec fn possible(outcome: Outcome, droppable: bool) -> bool {
    if droppable {
        !(outcome is Overflowed)
    } else {
        !(outcome is Skipped)
    }
}

/// The subscriber after `event` had this outcome with it. Whatever the outcome,
/// there was an attempt to put the event into its queue; where that broke the
/// subscription off, there was one to leave the notice.
pub open spec fn told(
    subscriber: SubscriberView,
    event: EventView,
    outcome: Outcome,
) -> SubscriberView {
    noticed(
        SubscriberView {
            event_tries: subscriber.event_tries.push(
                HandleUse::Tried(event, outcome.delivery()),
            ),
            events: if outcome is Delivered {
                subscriber.events.push(event)
            } else {
                subscriber.events
            },
            ..subscriber
        },
        outcome,
    )
}

/// The subscriber after the consequence of this outcome was drawn: one whose
/// queue overflowed was to be given notice.
pub open spec fn noticed(subscriber: SubscriberView, outcome: Outcome) -> SubscriberView {
    match outcome {
        Outcome::Overflowed { notified } => SubscriberView {
            notice_tries: subscriber.notice_tries.push((overflow_notice(), notified)),
            notices: if notified {
                subscriber.notices.push(overflow_notice())
            } else {
                subscriber.notices
            },
            ..subscriber
        },
        _ => subscriber,
    }
}

/// All subscribers after `event` had these outcomes with them, each still in
/// its place.
pub open spec fn all_told(
    subscribers: Seq<SubscriberView>,
    event: EventView,
    outcomes: Seq<Outcome>,
) -> Seq<SubscriberView> {
    Seq::new(subscribers.len(), |i: int| told(subscribers[i], event, outcomes[i]))
}

/// `items` without the one at `i`, whose place the last one takes.
pub open spec fn swap_removed<T>(items: Seq<T>, i: int) -> Seq<T> {
    items.update(i, items.last()).drop_last()
}

/// `items` after those below `n` whose outcome ends the subscription are taken
/// out, the one with the highest index first.
pub open spec fn pruned<T>(items: Seq<T>, outcomes: Seq<Outcome>, n: nat) -> Seq<T>
    decreases n,
{
    if n == 0 {
        items
    } else if outcomes[n - 1].leaves() {
        pruned(swap_removed(items, n - 1), outcomes, (n - 1) as nat)
    } else {
        pruned(items, outcomes, (n - 1) as nat)
    }
}

/// The items below `n` whose outcome ends the subscription, the one with the
/// highest index first.
pub open spec fn departed<T>(items: Seq<T>, outcomes: Seq<Outcome>, n: nat) -> Seq<T>
    decreases n,
{
    if n == 0 {
        Seq::empty()
    } else if outcomes[n - 1].leaves() {
        seq![items[n - 1]] + departed(items, outcomes, (n - 1) as nat)
    } else {
        departed(items, outcomes, (n - 1) as nat)
    }
}

/// The items below `n` whose outcome does not end the subscription, in order.
pub open spec fn remaining<T>(items: Seq<T>, outcomes: Seq<Outcome>, n: nat) -> Seq<T>
    decreases n,
{
    if n == 0 {
        Seq::empty()
    } else if outcomes[n - 1].leaves() {
        remaining(items, outcomes, (n - 1) as nat)
    } else {
        remaining(items, outcomes, (n - 1) as nat).push(items[n - 1])
    }
}

/// None of the subscribers takes its events from this queue.
pub open spec fn none_has_events(subscribers: Seq<SubscriberView>, queue: int) -> bool {
    forall|i: int| 0 <= i < subscribers.len() ==> (#[trigger] subscribers[i]).event_queue != queue
}

/// None of the subscribers takes its notice from this queue.
pub open spec fn none_has_notices(subscribers: Seq<SubscriberView>, queue: int) -> bool {
    forall|i: int| 0 <= i < subscribers.len() ==> (#[trigger] subscribers[i]).notice_queue != queue
}

/// Each subscriber by its view.
pub open spec fn views(subscribers: Seq<Subscriber>) -> Seq<SubscriberView> {
    subscribers.map_values(|subscriber: Subscriber| subscriber@)
}

/// What became of one event.
#[derive(Debug)]
pub struct Broadcast {
    /// The outcome at each subscriber, in the order in which they stood.
    pub outcomes: Vec<Outcome>,
    /// The subscribers whose subscription ended, the last of them first.
    pub departed: Vec<Subscriber>,
}

/// What a broadcast of `event` to `before` comes to.
pub open spec fn broadcast_done(
    before: Seq<SubscriberView>,
    event: EventView,
    after: Seq<SubscriberView>,
    report: Broadcast,
) -> bool {
    let outcomes = report.outcomes@;
    let told = all_told(before, event, outcomes);
    &&& outcomes.len() == before.len()
    &&& forall|i: int|
        0 <= i < outcomes.len() ==> possible(#[trigger] outcomes[i], event.droppable())
    &&& after == pruned(told, outcomes, before.len())
    &&& views(report.departed@) == departed(told, outcomes, before.len())
}

impl Subscriber {
    /// Draws the consequence of an attempt to deliver an event: a subscription
    /// that cannot take an event it must not miss is given notice.
    pub fn settle(&mut self, delivery: Delivery, droppable: bool) -> (outcome: Outcome)
        ensures
            outcome == outcome_of(delivery, droppable, outcome == Outcome::Overflowed {
                notified: true,
            }),
            final(self)@ == noticed(old(self)@, outcome),
    {
        match delivery {
            Delivery::Sent => Outcome::Delivered,
            Delivery::Full => if droppable {
                Outcome::Skipped
            } else {
                let notified = send_notice(
                    &mut self.terminate,
                    Status::resource_exhausted(
                        "subscription queue overflowed on a non-droppable event",
                    ),
                );
                proof {
                    lemma_left_push(old(self)@.notice_tries, overflow_notice(), notified);
                }
                Outcome::Overflowed { notified }
            },
            Delivery::Closed => Outcome::Gone,
        }
    }

    /// Tries to deliver `event`, and draws the consequence of how that went.
    pub fn offer(&mut self, event: &AgentEvent) -> (outcome: Outcome)
        ensures
            possible(outcome, event@.droppable()),
            final(self)@ == told(old(self)@, event@, outcome),
    {
        let delivery = try_send(&mut self.sender, event.clone());
        proof {
            lemma_delivered_push(old(self)@.event_tries, event@, delivery);
        }
        self.settle(delivery, event.droppable())
    }
}

/// The subscribers of one agent, in no particular order.
#[derive(Debug)]
pub struct Fanout {
    pub subscribers: Vec<Subscriber>,
}

impl View for Fanout {
    type V = Seq<SubscriberView>;

    open spec fn view(&self) -> Seq<SubscriberView> {
        views(self.subscribers@)
    }
}

impl Default for Fanout {
    fn default() -> (fanout: Self)
        ensures
            fanout@ == Seq::<SubscriberView>::empty(),
    {
        let fanout = Fanout { subscribers: Vec::new() };
        assert(fanout@ =~= Seq::<SubscriberView>::empty());
        fanout
    }
}

impl Fanout {
    /// Adds a subscriber that takes its events from the other end of `sender`.
    /// The notice that breaks the subscription off comes out of the result, which
    /// belongs to a queue of its own.
    pub fn attach(&mut self, sender: Sender<AgentEvent>) -> (notices: UnboundedReceiver<Status>)
        ensures
            final(self)@ == old(self)@.push(
                SubscriberView {
                    event_queue: event_queue(sender),
                    capacity: event_capacity(sender),
                    event_tries: event_tries(sender),
                    events: sent_events(sender),
                    notice_queue: notice_source(notices),
                    notice_tries: Seq::empty(),
                    notices: Seq::empty(),
                },
            ),
            none_has_notices(old(self)@, notice_source(notices)),
    {
        let (terminate, notices) = notice_channel(&self.subscribers);
        proof {
            assert forall|i: int| 0 <= i < self@.len() implies (#[trigger] self@[i]).notice_queue
                != notice_source(notices) by {
                assert(self@[i] == self.subscribers@[i]@);
            }
        }
        self.subscribers.push(Subscriber { sender, terminate });
        assert(self@ =~= old(self)@.push(self.subscribers@.last()@));
        notices
    }

    /// Tells every subscriber of `event` and ends the subscriptions that did
    /// not stand it.
    pub fn broadcast(&mut self, event: AgentEvent) -> (report: Broadcast)
        ensures
            broadcast_done(old(self)@, event@, final(self)@, report),
    {
        let mut outcomes: Vec<Outcome> = Vec::new();
        let mut i: usize = 0;
        let count: usize = self.subscribers.len();
        while i < count
            invariant
                i <= count,
                count == self.subscribers.len(),
                count == old(self).subscribers.len(),
                outcomes.len() == i,
                forall|k: int|
                    0 <= k < i ==> possible(#[trigger] outcomes[k], event@.droppable()),
                forall|k: int|
                    0 <= k < i ==> (#[trigger] self.subscribers[k])@ == told(
                        old(self).subscribers[k]@,
                        event@,
                        outcomes[k],
                    ),
                forall|k: int|
                    i <= k < count ==> self.subscribers[k] == old(self).subscribers[k],
            decreases count - i,
        {
            let outcome = self.subscribers[i].offer(&event);
            outcomes.push(outcome);
            i = i + 1;
        }
        assert(self@ =~= all_told(old(self)@, event@, outcomes@));
        let departed = self.prune(&outcomes);
        Broadcast { outcomes, departed }
    }

    /// Takes out the subscribers whose outcome ends the subscription.
    pub fn prune(&mut self, outcomes: &Vec<Outcome>) -> (gone: Vec<Subscriber>)
        requires
            outcomes.len() == old(self)@.len(),
        ensures
            final(self)@ == pruned(old(self)@, outcomes@, outcomes@.len()),
            views(gone@) == departed(old(self)@, outcomes@, outcomes@.len()),
    {
        let mut gone: Vec<Subscriber> = Vec::new();
        let mut n: usize = outcomes.len();
        assert(views(gone@) + departed(old(self)@, outcomes@, n as nat) =~= departed(
            old(self)@,
            outcomes@,
            n as nat,
        ));
        while n > 0
            invariant
                n <= outcomes.len(),
                n <= self@.len(),
                outcomes.len() == old(self)@.len(),
                pruned(self@, outcomes@, n as nat) == pruned(
                    old(self)@,
                    outcomes@,
                    outcomes@.len(),
                ),
                views(gone@) + departed(old(self)@, outcomes@, n as nat) == departed(
                    old(self)@,
                    outcomes@,
                    outcomes@.len(),
                ),
                forall|k: int| 0 <= k < n ==> self@[k] == old(self)@[k],
            decreases n,
        {
            let ghost before = self@;
            let ghost gone_before = views(gone@);
            let ghost left = departed(old(self)@, outcomes@, n as nat);
            n = n - 1;
            if outcomes[n].ends_subscription() {
                let subscriber = self.subscribers.swap_remove(n);
                assert(self@ =~= swap_removed(before, n as int));
                assert(subscriber@ == before[n as int]);
                gone.push(subscriber);
                assert(views(gone@) =~= gone_before.push(subscriber@));
                assert(views(gone@) + departed(old(self)@, outcomes@, n as nat) =~= gone_before
                    + left);
            }
        }
        assert(views(gone@) + departed(old(self)@, outcomes@, 0) =~= views(gone@));
        gone
    }

    /// Ends every subscription without a notice. With the result the server
    /// lets go of its handles, and the subscribers find their queues at an end
    /// once they have taken out what is in them.
    pub fn close_all(&mut self) -> (closed: Vec<Subscriber>)
        ensures
            final(self)@ == Seq::<SubscriberView>::empty(),
            views(closed@) == old(self)@,
    {
        let mut closed: Vec<Subscriber> = Vec::new();
        closed.append(&mut self.subscribers);
        assert(views(closed@) =~= old(self)@);
        assert(self@ =~= Seq::<SubscriberView>::empty());
        closed
    }
}

} // verus!
