//! What a subscriber is told over a series of events.

use vstd::prelude::*;
use vstd::seq_lib::group_to_multiset_ensures;

use crate::agent::AgentStateView;
use crate::channel::HandleUse;
use crate::event::EventView;
use crate::fanout::{
    all_told, broadcast_done, none_has_events, none_has_notices, overflow_notice, possible, pruned,
    remaining, swap_removed, told, views, Broadcast, Outcome, SubscriberView,
};
use crate::laws::{law_pruning_loses_nobody_else, lemma_departed_contains};

verus! {

/// What happens to the subscribers of an agent until it is taken down.
pub enum FanoutStep {
    /// This subscriber is added.
    Attached(SubscriberView),
    /// This event is broadcast, and this is what became of it.
    Told(EventView, Broadcast),
}

/// The step takes the subscribers from `before` to `after`.
pub open spec fn step_done(
    before: Seq<SubscriberView>,
    step: FanoutStep,
    after: Seq<SubscriberView>,
) -> bool {
    match step {
        FanoutStep::Attached(subscriber) => after == before.push(subscriber),
        FanoutStep::Told(event, report) => broadcast_done(before, event, after, report),
    }
}

/// The steps were taken one after the other, with these subscribers before,
/// between and after them.
pub open spec fn series_done(
    states: Seq<Seq<SubscriberView>>,
    steps: Seq<FanoutStep>,
) -> bool {
    &&& states.len() == steps.len() + 1
    &&& forall|j: int|
        0 <= j < steps.len() ==> step_done(states[j], #[trigger] steps[j], states[j + 1])
}

/// The events that were broadcast at these steps, in order.
pub open spec fn events_of(steps: Seq<FanoutStep>) -> Seq<EventView>
    decreases steps.len(),
{
    if steps.len() == 0 {
        Seq::empty()
    } else {
        match steps.last() {
            FanoutStep::Attached(_) => events_of(steps.drop_last()),
            FanoutStep::Told(event, _) => events_of(steps.drop_last()).push(event),
        }
    }
}

/// A subscriber after it was told a series of events, one outcome for each.
pub open spec fn told_series(
    subscriber: SubscriberView,
    events: Seq<EventView>,
    outcomes: Seq<Outcome>,
) -> SubscriberView
    decreases events.len(),
{
    if events.len() == 0 {
        subscriber
    } else {
        told(
            told_series(subscriber, events.drop_last(), outcomes.drop_last()),
            events.last(),
            outcomes.last(),
        )
    }
}

/// A subscriber stays through these events with these outcomes.
pub open spec fn stayed(events: Seq<EventView>, outcomes: Seq<Outcome>) -> bool {
    &&& outcomes.len() == events.len()
    &&& forall|i: int|
        0 <= i < events.len() ==> possible(#[trigger] outcomes[i], events[i].droppable())
            && !outcomes[i].leaves()
}

/// The events that were delivered, in order.
pub open spec fn picked(events: Seq<EventView>, outcomes: Seq<Outcome>) -> Seq<EventView>
    decreases events.len(),
{
    if events.len() == 0 {
        Seq::empty()
    } else if outcomes.last() is Delivered {
        picked(events.drop_last(), outcomes.drop_last()).push(events.last())
    } else {
        picked(events.drop_last(), outcomes.drop_last())
    }
}

/// The events that must not be missed.
pub open spec fn essential(events: Seq<EventView>) -> Seq<EventView> {
    events.filter(|event: EventView| !event.droppable())
}

/// Where the items of `part` stand in `whole`: further on from each to the
/// next.
pub open spec fn stands_at<T>(part: Seq<T>, whole: Seq<T>, at: Seq<int>) -> bool {
    &&& at.len() == part.len()
    &&& forall|k: int|
        0 <= k < part.len() ==> 0 <= #[trigger] at[k] < whole.len() && part[k] == whole[at[k]]
    &&& forall|j: int, k: int| 0 <= j < k < part.len() ==> #[trigger] at[j] < #[trigger] at[k]
}

/// `part` is `whole` with some items left out: the same order, and each item of
/// `whole` at most once.
pub open spec fn subsequence<T>(part: Seq<T>, whole: Seq<T>) -> bool {
    exists|at: Seq<int>| stands_at(part, whole, at)
}

/// `before` was told of `events` and is `after` now: behind what was in its
/// queue are events that were broadcast, in the order of the broadcasts and each
/// at most once; those that must not be missed are all there.
pub open spec fn heard(
    before: SubscriberView,
    events: Seq<EventView>,
    after: SubscriberView,
) -> bool {
    &&& after.event_queue == before.event_queue
    &&& after.notice_queue == before.notice_queue
    &&& exists|got: Seq<EventView>| #[trigger]
        subsequence(got, events) && after.events == before.events + got && essential(got)
            == essential(events)
}

/// What became of a subscriber in a series of steps.
pub enum Fate {
    /// It is still there, at this place; each event had this outcome with it.
    Stays { at: int, outcomes: Seq<Outcome> },
    /// It left at this step, with this outcome, and was this when it left; the
    /// events before had these outcomes with it.
    Left { step: int, outcomes: Seq<Outcome>, outcome: Outcome, last: SubscriberView },
}

/// This became of the subscriber that stood at `i` before the steps.
pub open spec fn fate_of(
    states: Seq<Seq<SubscriberView>>,
    steps: Seq<FanoutStep>,
    i: int,
    fate: Fate,
) -> bool {
    match fate {
        Fate::Stays { at, outcomes } => {
            &&& 0 <= at < states.last().len()
            &&& stayed(events_of(steps), outcomes)
            &&& states.last()[at] == told_series(states[0][i], events_of(steps), outcomes)
        },
        Fate::Left { step, outcomes, outcome, last } => {
            &&& 0 <= step < steps.len()
            &&& stayed(events_of(steps.take(step)), outcomes)
            &&& outcome.leaves()
            &&& steps[step] matches FanoutStep::Told(event, report)
            &&& possible(outcome, event.droppable())
            &&& last == told(
                told_series(states[0][i], events_of(steps.take(step)), outcomes),
                event,
                outcome,
            )
            &&& views(report.departed@).contains(last)
        },
    }
}

proof fn lemma_remaining_contains<T>(items: Seq<T>, outcomes: Seq<Outcome>, n: nat, i: int)
    requires
        0 <= i < n <= items.len(),
        !outcomes[i].leaves(),
    ensures
        remaining(items, outcomes, n).contains(items[i]),
    decreases n,
{
    let all = remaining(items, outcomes, n);
    let fewer = remaining(items, outcomes, (n - 1) as nat);
    if i == n - 1 {
        assert(all.last() == items[i]);
    } else {
        lemma_remaining_contains(items, outcomes, (n - 1) as nat, i);
        let j = choose|j: int| 0 <= j < fewer.len() && fewer[j] == items[i];
        assert(all[j] == items[i]);
    }
}

proof fn lemma_pruned_keeps<T>(items: Seq<T>, outcomes: Seq<Outcome>, i: int) -> (k: int)
    requires
        outcomes.len() == items.len(),
        0 <= i < items.len(),
        !outcomes[i].leaves(),
    ensures
        0 <= k < pruned(items, outcomes, items.len()).len(),
        pruned(items, outcomes, items.len())[k] == items[i],
{
    broadcast use group_to_multiset_ensures;

    let left = pruned(items, outcomes, items.len());
    let rest = remaining(items, outcomes, items.len());
    lemma_remaining_contains(items, outcomes, items.len(), i);
    law_pruning_loses_nobody_else(items, outcomes);
    assert(rest.to_multiset().count(items[i]) > 0);
    assert(left.contains(items[i]));
    choose|k: int| 0 <= k < left.len() && left[k] == items[i]
}

/// Whoever subscribes before a series of steps has one fate: it stays through
/// all of them, or it leaves at one, at which its queue overflowed or it had
/// gone.
pub proof fn law_every_subscriber_has_a_fate(
    states: Seq<Seq<SubscriberView>>,
    steps: Seq<FanoutStep>,
    i: int,
) -> (fate: Fate)
    requires
        series_done(states, steps),
        0 <= i < states[0].len(),
    ensures
        fate_of(states, steps, i, fate),
    decreases steps.len(),
{
    if steps.len() == 0 {
        Fate::Stays { at: i, outcomes: Seq::empty() }
    } else {
        let n = steps.len() - 1;
        let fewer = steps.drop_last();
        let earlier = states.drop_last();
        assert forall|j: int| 0 <= j < fewer.len() implies step_done(
            earlier[j],
            #[trigger] fewer[j],
            earlier[j + 1],
        ) by {
            assert(fewer[j] == steps[j]);
        }
        let fate = law_every_subscriber_has_a_fate(earlier, fewer, i);
        assert(step_done(states[n], steps[n], states[n + 1]));
        assert(steps.take(n) =~= fewer);
        match fate {
            Fate::Left { step, .. } => {
                assert(fewer.take(step) =~= steps.take(step));
                fate
            },
            Fate::Stays { at, outcomes } => match steps[n] {
                FanoutStep::Attached(_) => fate,
                FanoutStep::Told(event, report) => {
                    let subscriber = states[n][at];
                    let outcome = report.outcomes@[at];
                    let now = all_told(states[n], event, report.outcomes@);
                    assert(possible(outcome, event.droppable()));
                    if outcome.leaves() {
                        lemma_departed_contains(now, report.outcomes@, now.len(), at);
                        Fate::Left {
                            step: n,
                            outcomes,
                            outcome,
                            last: told(subscriber, event, outcome),
                        }
                    } else {
                        let k = lemma_pruned_keeps(now, report.outcomes@, at);
                        let all = outcomes.push(outcome);
                        assert(all.drop_last() =~= outcomes);
                        assert(events_of(steps).drop_last() =~= events_of(fewer));
                        assert forall|j: int| 0 <= j < all.len() implies possible(
                            #[trigger] all[j],
                            events_of(steps)[j].droppable(),
                        ) && !all[j].leaves() by {
                            if j < outcomes.len() {
                                assert(all[j] == outcomes[j]);
                                assert(events_of(steps)[j] == events_of(fewer)[j]);
                            }
                        }
                        Fate::Stays { at: k, outcomes: all }
                    }
                },
            },
        }
    }
}

/// The places of the events that were delivered.
spec fn places(outcomes: Seq<Outcome>) -> Seq<int>
    decreases outcomes.len(),
{
    if outcomes.len() == 0 {
        Seq::empty()
    } else if outcomes.last() is Delivered {
        places(outcomes.drop_last()).push(outcomes.len() - 1)
    } else {
        places(outcomes.drop_last())
    }
}

proof fn lemma_picked_stands_at(events: Seq<EventView>, outcomes: Seq<Outcome>)
    requires
        outcomes.len() == events.len(),
    ensures
        stands_at(picked(events, outcomes), events, places(outcomes)),
    decreases events.len(),
{
    if events.len() > 0 {
        let fewer = outcomes.drop_last();
        let earlier = events.drop_last();
        lemma_picked_stands_at(earlier, fewer);
        let part = picked(events, outcomes);
        let at = places(outcomes);
        assert forall|k: int| 0 <= k < part.len() implies 0 <= #[trigger] at[k] < events.len()
            && part[k] == events[at[k]] by {
            if k < places(fewer).len() {
                assert(at[k] == places(fewer)[k]);
                assert(part[k] == picked(earlier, fewer)[k]);
            }
        }
        assert forall|j: int, k: int| 0 <= j < k < part.len() implies #[trigger] at[j]
            < #[trigger] at[k] by {
            assert(at[j] == places(fewer)[j]);
            if k < places(fewer).len() {
                assert(at[k] == places(fewer)[k]);
            }
        }
    }
}

/// A subscriber that stays through a series of events misses nothing but
/// updates: what is delivered are events that were sent, in order and each at
/// most once, with all that must not be missed. It is given no notice. Where no
/// attempt found the queue full, nothing is missing.
pub proof fn law_who_stays_misses_only_updates(
    subscriber: SubscriberView,
    events: Seq<EventView>,
    outcomes: Seq<Outcome>,
)
    requires
        stayed(events, outcomes),
    ensures
        heard(subscriber, events, told_series(subscriber, events, outcomes)),
        told_series(subscriber, events, outcomes).notices == subscriber.notices,
        (forall|i: int| 0 <= i < outcomes.len() ==> #[trigger] outcomes[i].delivery() is Sent)
            ==> told_series(subscriber, events, outcomes).events == subscriber.events + events,
{
    lemma_picked_stands_at(events, outcomes);
    lemma_picked(subscriber, events, outcomes);
    assert(subsequence(picked(events, outcomes), events));
}

proof fn lemma_picked(
    subscriber: SubscriberView,
    events: Seq<EventView>,
    outcomes: Seq<Outcome>,
)
    requires
        stayed(events, outcomes),
    ensures
        ({
            let now = told_series(subscriber, events, outcomes);
            &&& now.event_queue == subscriber.event_queue
            &&& now.notice_queue == subscriber.notice_queue
            &&& now.notices == subscriber.notices
            &&& now.events == subscriber.events + picked(events, outcomes)
        }),
        essential(picked(events, outcomes)) == essential(events),
        (forall|i: int| 0 <= i < outcomes.len() ==> #[trigger] outcomes[i].delivery() is Sent)
            ==> picked(events, outcomes) == events,
    decreases events.len(),
{
    reveal(Seq::filter);
    if events.len() == 0 {
        assert(subscriber.events + picked(events, outcomes) =~= subscriber.events);
        assert(picked(events, outcomes) =~= events);
    } else {
        let n = events.len() - 1;
        let fewer = outcomes.drop_last();
        let earlier = events.drop_last();
        assert forall|i: int| 0 <= i < n implies possible(
            #[trigger] fewer[i],
            earlier[i].droppable(),
        ) && !fewer[i].leaves() by {
            assert(fewer[i] == outcomes[i]);
        }
        lemma_picked(subscriber, earlier, fewer);
        assert(outcomes.last() == outcomes[n]);
        let got = picked(events, outcomes);
        if outcomes.last() is Delivered {
            assert(got.drop_last() =~= picked(earlier, fewer));
            assert(told_series(subscriber, events, outcomes).events =~= subscriber.events + got);
        }
        if forall|i: int| 0 <= i < outcomes.len() ==> #[trigger] outcomes[i].delivery() is Sent {
            assert forall|i: int| 0 <= i < fewer.len() implies #[trigger]
                fewer[i].delivery() is Sent by {
                assert(fewer[i] == outcomes[i]);
                assert(outcomes[i].delivery() is Sent);
            }
            assert(outcomes[n].delivery() is Sent);
            assert(got =~= events);
        }
    }
}

/// From the moment when it subscribes, a subscriber is told the events of the
/// agent in the order of their broadcasts and each at most once, and it misses
/// only updates, for as long as it stays. If it leaves, that holds of the events
/// until then; where that was because its queue overflowed and the notice could
/// be left, the notice is the last.
pub proof fn law_subscriber_hears_in_order(
    states: Seq<Seq<SubscriberView>>,
    steps: Seq<FanoutStep>,
    i: int,
) -> (fate: Fate)
    requires
        series_done(states, steps),
        0 <= i < states[0].len(),
    ensures
        fate_of(states, steps, i, fate),
        match fate {
            Fate::Stays { at, outcomes } => {
                &&& heard(states[0][i], events_of(steps), states.last()[at])
                &&& states.last()[at].notices == states[0][i].notices
                &&& (forall|k: int|
                    0 <= k < outcomes.len() ==> #[trigger] outcomes[k].delivery() is Sent)
                    ==> states.last()[at].events == states[0][i].events + events_of(steps)
            },
            Fate::Left { step, outcome, last, .. } => {
                &&& heard(states[0][i], events_of(steps.take(step)), last)
                &&& last.notices == if outcome == (Outcome::Overflowed { notified: true }) {
                    states[0][i].notices.push(overflow_notice())
                } else {
                    states[0][i].notices
                }
            },
        },
{
    let fate = law_every_subscriber_has_a_fate(states, steps, i);
    match fate {
        Fate::Stays { outcomes, .. } => {
            law_who_stays_misses_only_updates(states[0][i], events_of(steps), outcomes);
        },
        Fate::Left { step, outcomes, .. } => {
            law_who_stays_misses_only_updates(
                states[0][i],
                events_of(steps.take(step)),
                outcomes,
            );
        },
    }
    fate
}

/// Each of the subscribers has two queues of its own.
pub open spec fn queues_apart(subscribers: Seq<SubscriberView>) -> bool {
    &&& forall|i: int, j: int|
        0 <= i < j < subscribers.len() ==> (#[trigger] subscribers[i]).event_queue != (
        #[trigger] subscribers[j]).event_queue
    &&& forall|i: int, j: int|
        0 <= i < j < subscribers.len() ==> (#[trigger] subscribers[i]).notice_queue != (
        #[trigger] subscribers[j]).notice_queue
}

proof fn lemma_pruned_apart(items: Seq<SubscriberView>, outcomes: Seq<Outcome>, n: nat)
    requires
        n <= items.len(),
        queues_apart(items),
    ensures
        queues_apart(pruned(items, outcomes, n)),
    decreases n,
{
    if n > 0 {
        if outcomes[n - 1].leaves() {
            let rest = swap_removed(items, n - 1);
            assert(queues_apart(rest));
            lemma_pruned_apart(rest, outcomes, (n - 1) as nat);
        } else {
            lemma_pruned_apart(items, outcomes, (n - 1) as nat);
        }
    }
}

/// A new subscriber whose queues are new leaves those who are there as they
/// are, with what was put into their queues, and each then has two queues of its
/// own: what is put into the new queue is the new subscriber's alone.
pub proof fn law_new_subscriber_has_its_own_queues(
    before: AgentStateView,
    subscriber: SubscriberView,
)
    requires
        queues_apart(before.subscribers),
        none_has_events(before.subscribers, subscriber.event_queue),
        none_has_notices(before.subscribers, subscriber.notice_queue),
    ensures
        ({
            let after = before.with_subscriber(subscriber).subscribers;
            &&& after.len() == before.subscribers.len() + 1
            &&& after.drop_last() == before.subscribers
            &&& after.last() == subscriber
            &&& queues_apart(after)
        }),
{
}

/// Every event is offered to every subscriber, once and behind all that was
/// offered before, and through it all each keeps its two queues to itself.
pub proof fn law_every_subscriber_is_offered_every_event(
    before: Seq<SubscriberView>,
    event: EventView,
    after: Seq<SubscriberView>,
    report: Broadcast,
    i: int,
)
    requires
        broadcast_done(before, event, after, report),
        queues_apart(before),
        0 <= i < before.len(),
    ensures
        ({
            let outcome = report.outcomes@[i];
            let now = told(before[i], event, outcome);
            &&& now.event_tries == before[i].event_tries.push(
                HandleUse::Tried(event, outcome.delivery()),
            )
            &&& now.event_queue == before[i].event_queue
            &&& now.notice_queue == before[i].notice_queue
            &&& outcome.leaves() ==> views(report.departed@).contains(now)
            &&& !outcome.leaves() ==> after.contains(now)
        }),
        queues_apart(after),
{
    let now = all_told(before, event, report.outcomes@);
    assert(queues_apart(now));
    lemma_pruned_apart(now, report.outcomes@, now.len());
    if report.outcomes@[i].leaves() {
        lemma_departed_contains(now, report.outcomes@, now.len(), i);
    } else {
        let k = lemma_pruned_keeps(now, report.outcomes@, i);
        assert(after[k] == now[i]);
    }
}

/// If each new subscriber comes with new queues, each subscriber has two queues
/// of its own all along.
pub proof fn law_queues_stay_apart(
    states: Seq<Seq<SubscriberView>>,
    steps: Seq<FanoutStep>,
    n: int,
)
    requires
        series_done(states, steps),
        queues_apart(states[0]),
        forall|j: int|
            0 <= j < steps.len() ==> ((#[trigger] steps[j]) matches FanoutStep::Attached(subscriber)
                ==> none_has_events(states[j], subscriber.event_queue) && none_has_notices(
                states[j],
                subscriber.notice_queue,
            )),
        0 <= n < states.len(),
    ensures
        queues_apart(states[n]),
    decreases n,
{
    if n > 0 {
        law_queues_stay_apart(states, steps, n - 1);
        assert(step_done(states[n - 1], steps[n - 1], states[n]));
        match steps[n - 1] {
            FanoutStep::Attached(_) => {},
            FanoutStep::Told(event, report) => {
                let now = all_told(states[n - 1], event, report.outcomes@);
                assert(queues_apart(now));
                lemma_pruned_apart(now, report.outcomes@, now.len());
            },
        }
    }
}

} // verus!
