//! What is carried where, field by field: events, refusals, states and registries
//! hold just what they were made from.

use vstd::prelude::*;
use vstd::seq_lib::group_to_multiset_ensures;

use crate::agent::{published, AgentState, AgentStateView};
use crate::cancel::{answers, cancelled_through, token_number, token_view, TokenView};
use crate::channel::{
    delivered, event_capacity, event_queue, event_tries, left, notice_queue, notice_tries,
    Delivery, HandleUse,
};
use crate::event::{
    agent_destroyed_event, switch_event, turn_completed_event, AgentEvent, EventKind,
    EventKindView, EventView, Memory, MemoryView,
};
use crate::fanout::{
    all_told, broadcast_done, departed, outcome_of, overflow_notice, possible, remaining, told,
    views, Broadcast, Fanout, Outcome, SubscriberView,
};
use crate::laws::law_pruning_loses_nobody_else;
use crate::registry::{Registry, RegistryView};
use crate::request::SendTurnResponse;
use crate::server::{
    agent_failed, agent_not_found, named_agent, owned_by_another, version_mismatch, AgentServer,
    NewAgent,
};
use crate::status::{Code, Status, StatusView};
use crate::subscription::{
    event_view, front, look_of, notice_view, Progress, Served, StreamStep, QUEUE_LENGTH,
};
use crate::turn::{
    busy_status, replies, result_view, taken_up, turn_begun, turn_error, turn_refusal,
    RunningTurn,
};

verus! {

/// A refusal is known by its kind and its message.
pub proof fn law_status_is_known_by_its_fields(status: Status)
    ensures
        status@.code == status.code,
        status@.message == status.message@,
{
}

/// An event is known by everything that it carries.
pub proof fn law_event_is_known_by_its_fields(event: AgentEvent)
    ensures
        event@.agent_id == event.agent_id@,
        match event.kind {
            EventKind::SwitchConversation { conversation_id, messages: Ok(text) } => {
                &&& event@.kind matches EventKindView::SwitchConversation {
                    conversation_id: c,
                    messages: Ok(t),
                }
                &&& c == conversation_id@
                &&& t == text@
            },
            EventKind::SwitchConversation { conversation_id, messages: Err(error) } => {
                &&& event@.kind matches EventKindView::SwitchConversation {
                    conversation_id: c,
                    messages: Err(e),
                }
                &&& c == conversation_id@
                &&& e == error@
            },
            EventKind::NewMessage { index, message, turn_id } => {
                &&& event@.kind matches EventKindView::NewMessage {
                    index: i,
                    message: m,
                    turn_id: t,
                }
                &&& i == index
                &&& m == message@
                &&& t == turn_id@
            },
            EventKind::UpdateMessage { index, update, turn_id } => {
                &&& event@.kind matches EventKindView::UpdateMessage {
                    index: i,
                    update: u,
                    turn_id: t,
                }
                &&& i == index
                &&& u == update@
                &&& t == turn_id@
            },
            EventKind::TurnCompleted { turn_id, error } => {
                &&& event@.kind matches EventKindView::TurnCompleted { turn_id: t, error: e }
                &&& t == turn_id@
                &&& e == error@
            },
            EventKind::AgentDestroyed { reason } => {
                &&& event@.kind matches EventKindView::AgentDestroyed { reason: r }
                &&& r == reason@
            },
        },
{
}

/// The messages of a conversation are known by their text, and by whether they
/// could be read and encoded.
pub proof fn law_memory_is_known_by_its_text(memory: Memory)
    ensures
        match memory {
            Memory::Encoded(text) => memory@ matches MemoryView::Encoded(t) && t == text@,
            Memory::Unencodable(error) => memory@ matches MemoryView::Unencodable(e) && e
                == error@,
            Memory::Failed(error) => memory@ matches MemoryView::Failed(e) && e == error@,
        },
{
}

/// The event of a conversation carries the agent, the conversation and the
/// messages as they are, or the reason why they could not be read. Messages that
/// could not be encoded have no event but their error.
pub proof fn law_switch_carries_the_messages(
    agent_id: Seq<char>,
    conversation_id: Seq<char>,
    text: Seq<char>,
)
    ensures
        switch_event(agent_id, conversation_id, MemoryView::Encoded(text)) matches Ok(event)
            && event.agent_id == agent_id && event.kind is SwitchConversation
            && event.kind->conversation_id == conversation_id && event.kind->messages == Ok::<
            Seq<char>,
            Seq<char>,
        >(text),
        switch_event(agent_id, conversation_id, MemoryView::Failed(text)) matches Ok(event)
            && event.agent_id == agent_id && event.kind is SwitchConversation
            && event.kind->conversation_id == conversation_id && event.kind->messages == Err::<
            Seq<char>,
            Seq<char>,
        >(text),
        switch_event(agent_id, conversation_id, MemoryView::Unencodable(text)) == Err::<
            EventView,
            Seq<char>,
        >(text),
{
}

/// Two conversations, or one with two different messages, have two different
/// events.
pub proof fn law_switch_tells_conversations_apart(
    agent_id: Seq<char>,
    one: Seq<char>,
    other: Seq<char>,
    text: Seq<char>,
    another: Seq<char>,
)
    ensures
        switch_event(agent_id, one, MemoryView::Encoded(text)) == switch_event(
            agent_id,
            other,
            MemoryView::Encoded(another),
        ) <==> one == other && text == another,
        switch_event(agent_id, one, MemoryView::Failed(text)) == switch_event(
            agent_id,
            other,
            MemoryView::Failed(another),
        ) <==> one == other && text == another,
{
    law_switch_carries_the_messages(agent_id, one, text);
    law_switch_carries_the_messages(agent_id, other, another);
}

/// The events of a message carry the agent, the index and the text as they are,
/// and the turn that the agent was last at; where there was none, no turn.
pub proof fn law_message_events_carry_the_message(
    state: AgentStateView,
    index: usize,
    text: Seq<char>,
)
    ensures
        ({
            let event = state.new_message_event(index, text);
            &&& event.agent_id == state.agent_id
            &&& event.kind is NewMessage
            &&& event.kind->NewMessage_index == index
            &&& event.kind->NewMessage_message == text
            &&& state.turn_id matches Some(turn_id) ==> event.kind->NewMessage_turn_id == turn_id
            &&& state.turn_id is None ==> event.kind->NewMessage_turn_id.len() == 0
        }),
        ({
            let event = state.update_message_event(index, text);
            &&& event.agent_id == state.agent_id
            &&& event.kind is UpdateMessage
            &&& event.kind->UpdateMessage_index == index
            &&& event.kind->UpdateMessage_update == text
            &&& state.turn_id matches Some(turn_id) ==> event.kind->UpdateMessage_turn_id
                == turn_id
            &&& state.turn_id is None ==> event.kind->UpdateMessage_turn_id.len() == 0
        }),
{
}

/// Two messages have two different events, and no text is lost.
pub proof fn law_message_events_tell_messages_apart(
    state: AgentStateView,
    index: usize,
    text: Seq<char>,
    other_index: usize,
    other: Seq<char>,
)
    ensures
        state.new_message_event(index, text) == state.new_message_event(other_index, other) <==>
            index == other_index && text == other,
        state.update_message_event(index, text) == state.update_message_event(other_index, other)
            <==> index == other_index && text == other,
{
    law_message_events_carry_the_message(state, index, text);
    law_message_events_carry_the_message(state, other_index, other);
}

/// The event of the end of a turn carries the agent, the turn and the error; that
/// of the end of an agent carries the agent and the reason.
pub proof fn law_last_events_carry_their_text(
    agent_id: Seq<char>,
    turn_id: Seq<char>,
    text: Seq<char>,
)
    ensures
        ({
            let event = turn_completed_event(agent_id, turn_id, text);
            &&& event.agent_id == agent_id
            &&& event.kind is TurnCompleted
            &&& event.kind->TurnCompleted_turn_id == turn_id
            &&& event.kind->TurnCompleted_error == text
        }),
        ({
            let event = agent_destroyed_event(agent_id, text);
            &&& event.agent_id == agent_id
            &&& event.kind is AgentDestroyed
            &&& event.kind->reason == text
        }),
{
}

/// Of all events, updates and nothing else may be missed.
pub proof fn law_only_updates_may_be_missed(event: EventView)
    ensures
        event.droppable() <==> event.kind is UpdateMessage,
{
}

/// The notice of an overflow says that a resource is exhausted, and which.
pub proof fn law_overflow_notice()
    ensures
        overflow_notice().code == Code::ResourceExhausted,
        overflow_notice().message
            == "subscription queue overflowed on a non-droppable event"@,
{
}

/// An event that is in the queue is delivered; one for which there was no room
/// is skipped where it may be missed, and breaks the subscription off where it
/// may not; a subscriber that has gone has gone. Only the last two end the
/// subscription.
pub proof fn law_outcome_goes_by_the_answer(droppable: bool, notified: bool)
    ensures
        outcome_of(Delivery::Sent, droppable, notified) is Delivered,
        outcome_of(Delivery::Full, true, notified) is Skipped,
        outcome_of(Delivery::Full, false, notified) is Overflowed,
        outcome_of(Delivery::Full, false, notified)->notified == notified,
        outcome_of(Delivery::Closed, droppable, notified) is Gone,
        !outcome_of(Delivery::Sent, droppable, notified).leaves(),
        outcome_of(Delivery::Full, droppable, notified).leaves() <==> !droppable,
        outcome_of(Delivery::Closed, droppable, notified).leaves(),
{
}

/// From the outcome follows how the attempt went, and for an event that may be
/// missed or may not, the outcome is the only one that goes with that.
pub proof fn law_answer_goes_by_the_outcome(outcome: Outcome, droppable: bool)
    ensures
        outcome is Delivered <==> outcome.delivery() is Sent,
        outcome is Gone <==> outcome.delivery() is Closed,
        outcome is Skipped || outcome is Overflowed <==> outcome.delivery() is Full,
        outcome.leaves() <==> outcome is Overflowed || outcome is Gone,
        possible(outcome, droppable) && outcome.delivery() is Full ==> (outcome is Skipped
            <==> droppable),
        possible(outcome, droppable) <==> outcome == outcome_of(
            outcome.delivery(),
            droppable,
            outcome == (Outcome::Overflowed { notified: true }),
        ),
{
}

/// Whatever the outcome, an event is offered to a subscriber just once: its
/// handle is used for that attempt and for nothing else, no other handle is made,
/// and its queue grows by that one event, once, or not at all. The notice is
/// left only where the event broke the subscription off.
pub proof fn law_event_is_offered_once(
    subscriber: SubscriberView,
    event: EventView,
    outcome: Outcome,
)
    ensures
        ({
            let now = told(subscriber, event, outcome);
            &&& now.event_queue == subscriber.event_queue
            &&& now.capacity == subscriber.capacity
            &&& now.notice_queue == subscriber.notice_queue
            &&& now.event_tries.len() == subscriber.event_tries.len() + 1
            &&& now.event_tries.drop_last() == subscriber.event_tries
            &&& now.event_tries.last() matches HandleUse::Tried(tried, delivery) && tried == event
                && delivery == outcome.delivery()
            &&& outcome is Delivered ==> now.events.len() == subscriber.events.len() + 1
                && now.events.last() == event && now.events.drop_last() == subscriber.events
            &&& !(outcome is Delivered) ==> now.events == subscriber.events
            &&& outcome is Overflowed ==> now.notice_tries.len() == subscriber.notice_tries.len()
                + 1 && now.notice_tries.last().0 == overflow_notice() && now.notice_tries.last().1
                == outcome->notified && now.notice_tries.drop_last() == subscriber.notice_tries
            &&& !(outcome is Overflowed) ==> now.notice_tries == subscriber.notice_tries
            &&& outcome == (Outcome::Overflowed { notified: true }) ==> now.notices.len()
                == subscriber.notices.len() + 1 && now.notices.last() == overflow_notice()
                && now.notices.drop_last() == subscriber.notices
            &&& outcome != (Outcome::Overflowed { notified: true }) ==> now.notices
                == subscriber.notices
        }),
{
    let now = told(subscriber, event, outcome);
    assert(now.event_tries.drop_last() =~= subscriber.event_tries);
    if outcome is Delivered {
        assert(now.events.drop_last() =~= subscriber.events);
    }
    if outcome is Overflowed {
        assert(now.notice_tries.drop_last() =~= subscriber.notice_tries);
        if outcome->notified {
            assert(now.notices.drop_last() =~= subscriber.notices);
        }
    }
}

/// The handles that were made from a handle.
pub open spec fn copies(uses: Seq<HandleUse>) -> nat
    decreases uses.len(),
{
    if uses.len() == 0 {
        0
    } else if uses.last() is Copied {
        copies(uses.drop_last()) + 1
    } else {
        copies(uses.drop_last())
    }
}

/// The attempts to put this event into the queue.
pub open spec fn times_tried(uses: Seq<HandleUse>, event: EventView) -> nat
    decreases uses.len(),
{
    if uses.len() == 0 {
        0
    } else if uses.last() is Tried && uses.last()->0 == event {
        times_tried(uses.drop_last(), event) + 1
    } else {
        times_tried(uses.drop_last(), event)
    }
}

/// A broadcast tries to put the event into the queue of each subscriber once
/// more than before, any other event not at all, and makes no further handle for
/// any queue: nothing reaches a queue that does not show with its subscriber.
pub proof fn law_broadcast_tries_each_queue_once(
    before: Seq<SubscriberView>,
    event: EventView,
    after: Seq<SubscriberView>,
    report: Broadcast,
    i: int,
    other: EventView,
)
    requires
        broadcast_done(before, event, after, report),
        0 <= i < before.len(),
        other != event,
    ensures
        ({
            let now = all_told(before, event, report.outcomes@)[i];
            &&& times_tried(now.event_tries, event) == times_tried(before[i].event_tries, event)
                + 1
            &&& times_tried(now.event_tries, other) == times_tried(before[i].event_tries, other)
            &&& copies(now.event_tries) == copies(before[i].event_tries)
        }),
        report.outcomes@.len() == before.len(),
{
    law_event_is_offered_once(before[i], event, report.outcomes@[i]);
}

/// What was put into a queue through a handle are the events of those attempts
/// that the queue took, in order.
pub proof fn law_queue_holds_what_it_took(
    uses: Seq<HandleUse>,
    event: EventView,
    notices: Seq<(StatusView, bool)>,
    notice: StatusView,
)
    ensures
        delivered(Seq::empty()) == Seq::<EventView>::empty(),
        delivered(uses.push(HandleUse::Tried(event, Delivery::Sent))) == delivered(uses).push(
            event,
        ),
        delivered(uses.push(HandleUse::Tried(event, Delivery::Full))) == delivered(uses),
        delivered(uses.push(HandleUse::Tried(event, Delivery::Closed))) == delivered(uses),
        delivered(uses.push(HandleUse::Copied)) == delivered(uses),
        left(Seq::empty()) == Seq::<StatusView>::empty(),
        left(notices.push((notice, true))) == left(notices).push(notice),
        left(notices.push((notice, false))) == left(notices),
{
    assert(uses.push(HandleUse::Tried(event, Delivery::Sent)).drop_last() =~= uses);
    assert(uses.push(HandleUse::Tried(event, Delivery::Full)).drop_last() =~= uses);
    assert(uses.push(HandleUse::Tried(event, Delivery::Closed)).drop_last() =~= uses);
    assert(uses.push(HandleUse::Copied).drop_last() =~= uses);
    assert(notices.push((notice, true)).drop_last() =~= notices);
    assert(notices.push((notice, false)).drop_last() =~= notices);
}

/// A subscriber is known by its two handles, and the subscribers of an agent by
/// each of them in turn.
pub proof fn law_subscribers_are_known_by_their_handles(fanout: Fanout, i: int)
    requires
        0 <= i < fanout.subscribers@.len(),
    ensures
        fanout@.len() == fanout.subscribers@.len(),
        ({
            let subscriber = fanout.subscribers@[i];
            &&& fanout@[i].event_queue == event_queue(subscriber.sender)
            &&& fanout@[i].capacity == event_capacity(subscriber.sender)
            &&& fanout@[i].event_tries == event_tries(subscriber.sender)
            &&& fanout@[i].events == delivered(event_tries(subscriber.sender))
            &&& fanout@[i].notice_queue == notice_queue(subscriber.terminate)
            &&& fanout@[i].notice_tries == notice_tries(subscriber.terminate)
            &&& fanout@[i].notices == left(notice_tries(subscriber.terminate))
        }),
{
}

proof fn lemma_parted<T>(items: Seq<T>, outcomes: Seq<Outcome>, n: nat)
    requires
        n <= items.len(),
    ensures
        remaining(items, outcomes, n).to_multiset().add(
            departed(items, outcomes, n).to_multiset(),
        ) =~= items.take(n as int).to_multiset(),
        remaining(items, outcomes, n).len() + departed(items, outcomes, n).len() == n,
    decreases n,
{
    broadcast use group_to_multiset_ensures;

    if n == 0 {
        assert(items.take(0) =~= Seq::<T>::empty());
    } else {
        let m = (n - 1) as nat;
        lemma_parted(items, outcomes, m);
        assert(items.take(n as int) =~= items.take(m as int).push(items[n - 1]));
        let gone = departed(items, outcomes, m);
        if outcomes[n - 1].leaves() {
            assert((seq![items[n - 1]] + gone).to_multiset() =~= gone.push(
                items[n - 1],
            ).to_multiset()) by {
                vstd::seq_lib::lemma_multiset_commutative(seq![items[n - 1]], gone);
                vstd::seq_lib::lemma_multiset_commutative(gone, seq![items[n - 1]]);
                assert(gone.push(items[n - 1]) =~= gone + seq![items[n - 1]]);
            }
        }
    }
}

/// After a broadcast each of those who were there is, as it was told, either
/// among those who stay or among those who leave, and just once; nobody is there
/// who was not there before.
pub proof fn law_broadcast_parts_the_subscribers(
    before: Seq<SubscriberView>,
    event: EventView,
    after: Seq<SubscriberView>,
    report: Broadcast,
)
    requires
        broadcast_done(before, event, after, report),
    ensures
        all_told(before, event, report.outcomes@).len() == before.len(),
        forall|i: int|
            0 <= i < before.len() ==> #[trigger] all_told(before, event, report.outcomes@)[i]
                == told(before[i], event, report.outcomes@[i]),
        after.to_multiset().add(views(report.departed@).to_multiset()) =~= all_told(
            before,
            event,
            report.outcomes@,
        ).to_multiset(),
        after.len() + report.departed@.len() == before.len(),
{
    broadcast use group_to_multiset_ensures;

    let now = all_told(before, event, report.outcomes@);
    lemma_parted(now, report.outcomes@, now.len());
    law_pruning_loses_nobody_else(now, report.outcomes@);
    assert(now.take(now.len() as int) =~= now);
    assert(views(report.departed@).len() == report.departed@.len());
    assert(after.to_multiset().len() == after.len());
}

/// The state of an agent is known by its fields.
pub proof fn law_state_is_known_by_its_fields(state: AgentState)
    ensures
        state@.agent_id == state.agent_id@,
        state@.conversation_id == state.conversation_id@,
        state@.subscribers == state.fanout@,
        state.turn_id matches Some(turn_id) ==> state@.turn_id == Some(turn_id@),
        state.turn_id is None ==> state@.turn_id is None,
        state@.cancel.number == token_number(state.cancel),
        state@.cancel.cancelled == cancelled_through(state.cancel),
        state@.cancel.answers == answers(state.cancel),
        state@.attempts == state.attempts@,
{
}

/// What is done to an agent changes what it is done to, and nothing else.
pub proof fn law_state_changes_only_where_it_is_meant_to(
    state: AgentStateView,
    subscriber: SubscriberView,
    conversation_id: Seq<char>,
    turn_id: Seq<char>,
    number: int,
    got: bool,
)
    ensures
        ({
            let after = state.asked_to_stop();
            &&& after.agent_id == state.agent_id
            &&& after.conversation_id == state.conversation_id
            &&& after.subscribers == state.subscribers
            &&& after.turn_id == state.turn_id
            &&& after.attempts == state.attempts
            &&& after.cancel.cancelled
            &&& after.cancel.number == state.cancel.number
            &&& after.cancel.answers == state.cancel.answers
        }),
        ({
            let after = state.taken_down();
            &&& after.agent_id == state.agent_id
            &&& after.conversation_id == state.conversation_id
            &&& after.subscribers.len() == 0
            &&& after.turn_id == state.turn_id
            &&& after.attempts == state.attempts
            &&& after.cancel.cancelled
            &&& after.cancel.number == state.cancel.number
            &&& after.cancel.answers == state.cancel.answers
        }),
        ({
            let after = state.on_conversation(conversation_id);
            &&& after.agent_id == state.agent_id
            &&& after.conversation_id == conversation_id
            &&& after.subscribers == state.subscribers
            &&& after.turn_id == state.turn_id
            &&& after.attempts == state.attempts
            &&& after.cancel == state.cancel
        }),
        ({
            let after = state.with_subscriber(subscriber);
            &&& after.agent_id == state.agent_id
            &&& after.conversation_id == state.conversation_id
            &&& after.subscribers.len() == state.subscribers.len() + 1
            &&& after.subscribers.drop_last() == state.subscribers
            &&& after.subscribers.last() == subscriber
            &&& after.turn_id == state.turn_id
            &&& after.attempts == state.attempts
            &&& after.cancel == state.cancel
        }),
        ({
            let after = turn_begun(state, turn_id, number);
            &&& after.agent_id == state.agent_id
            &&& after.conversation_id == state.conversation_id
            &&& after.subscribers == state.subscribers
            &&& after.turn_id == Some(turn_id)
            &&& after.attempts == state.attempts
            &&& after.cancel.number == number
            &&& !after.cancel.cancelled
            &&& after.cancel.answers.len() == 0
        }),
        ({
            let after = state.tried(got);
            &&& after.agent_id == state.agent_id
            &&& after.conversation_id == state.conversation_id
            &&& after.subscribers == state.subscribers
            &&& after.turn_id == state.turn_id
            &&& after.cancel == state.cancel
            &&& after.attempts.len() == state.attempts.len() + 1
            &&& after.attempts.last() == got
            &&& after.attempts.drop_last() == state.attempts
        }),
{
    let more = state.with_subscriber(subscriber).subscribers;
    assert(more.drop_last() =~= state.subscribers);
    assert(state.tried(got).attempts.drop_last() =~= state.attempts);
}

/// A new agent has the name and the conversation that it was made for, nobody
/// who subscribes to it, no turn, and a token that nobody has used.
pub proof fn law_new_agent_is_fresh(
    state: AgentStateView,
    agent_id: Seq<char>,
    conversation_id: Seq<char>,
)
    requires
        state.fresh(agent_id, conversation_id),
    ensures
        state.agent_id == agent_id,
        state.conversation_id == conversation_id,
        state.subscribers.len() == 0,
        state.turn_id is None,
        !state.cancel.cancelled,
        state.cancel.answers.len() == 0,
        state.attempts.len() == 0,
{
}

/// An event that an agent reports changes its subscribers, who are told of it,
/// and nothing else of the agent.
pub proof fn law_report_changes_only_the_subscribers(
    before: AgentStateView,
    event: EventView,
    after: AgentStateView,
    report: Broadcast,
)
    requires
        published(before, event, after, report),
    ensures
        broadcast_done(before.subscribers, event, after.subscribers, report),
        after.agent_id == before.agent_id,
        after.conversation_id == before.conversation_id,
        after.turn_id == before.turn_id,
        after.cancel == before.cancel,
        after.attempts == before.attempts,
{
}

/// The uses of a handle for a token are told apart: to cancel, and to ask, which
/// adds the answer behind the earlier ones. Neither changes the token.
pub proof fn law_token_handle_is_known_by_its_uses(
    token: tokio_util::sync::CancellationToken,
    view: TokenView,
    answer: bool,
)
    ensures
        token_view(token).number == token_number(token),
        token_view(token).cancelled == cancelled_through(token),
        token_view(token).answers == answers(token),
        view.used_to_cancel().cancelled,
        view.used_to_cancel().number == view.number,
        view.used_to_cancel().answers == view.answers,
        view.asked(answer).cancelled == view.cancelled,
        view.asked(answer).number == view.number,
        view.asked(answer).answers.len() == view.answers.len() + 1,
        view.asked(answer).answers.last() == answer,
        view.asked(answer).answers.drop_last() == view.answers,
        TokenView::unused(view.number).number == view.number,
        !TokenView::unused(view.number).cancelled,
        TokenView::unused(view.number).answers.len() == 0,
{
    assert(view.asked(answer).answers.drop_last() =~= view.answers);
}

/// A turn that is taken up has the name that was asked for, with the agent and
/// with the one who runs it, and both are at one new token: newer than the
/// agent's before, and than all others. The handle for the token before is given
/// back as it was.
pub proof fn law_turn_that_is_taken_up(
    turn_id: String,
    before: AgentStateView,
    minted: int,
    running: RunningTurn,
    after: AgentStateView,
    number: int,
)
    requires
        taken_up(turn_id, before, minted, running, after, number),
    ensures
        running.turn_id@ == turn_id@,
        after.turn_id == Some(turn_id@),
        after.cancel.number == token_number(running.token),
        token_number(running.token) == number,
        number > before.cancel.number,
        number > minted,
        !after.cancel.cancelled,
        !cancelled_through(running.token),
        answers(running.token).len() == 0,
        token_number(running.previous) == before.cancel.number,
        cancelled_through(running.previous) == before.cancel.cancelled,
        answers(running.previous) == before.cancel.answers,
        after.agent_id == before.agent_id,
        after.conversation_id == before.conversation_id,
        after.subscribers == before.subscribers,
        after.attempts == before.attempts,
{
}

/// The lock on the agent is tried once for a turn, and its answer decides: the
/// turn is taken up if the lock was free, and refused as busy if it was held. A
/// refusal leaves the agent as it was.
pub proof fn law_lock_decides_on_the_turn(
    before: AgentStateView,
    after: AgentStateView,
    turn_id: String,
    minted: int,
    running: RunningTurn,
    number: int,
)
    ensures
        taken_up(turn_id, before.tried(true), minted, running, after, number) ==> {
            &&& after.attempts.len() == before.attempts.len() + 1
            &&& after.attempts.last()
            &&& after.attempts.drop_last() == before.attempts
        },
        after == before.tried(false) ==> {
            &&& after.attempts.len() == before.attempts.len() + 1
            &&& !after.attempts.last()
            &&& after.attempts.drop_last() == before.attempts
            &&& after.turn_id == before.turn_id
            &&& after.cancel == before.cancel
            &&& after.subscribers == before.subscribers
        },
        busy_status().code == Code::FailedPrecondition,
        busy_status().message == "agent busy"@,
{
    assert(before.attempts.push(true).drop_last() =~= before.attempts);
    assert(before.attempts.push(false).drop_last() =~= before.attempts);
}

/// What the client and the subscribers are told of the end of a turn. One that
/// was cancelled says so to both, whatever the agent made of it; one that failed
/// has the agent's own words for both; one that went well has no refusal and no
/// error.
pub proof fn law_end_of_a_turn_says_how_it_went(
    result: Result<(), Seq<char>>,
    reply: Result<SendTurnResponse, Status>,
    error: Seq<char>,
)
    ensures
        replies(reply, turn_refusal(true, result)) <==> reply is Err && reply->Err_0.code
            == Code::Cancelled && reply->Err_0.message@ == "turn cancelled"@,
        turn_error(true, result) == "cancelled"@,
        replies(reply, turn_refusal(false, Ok(()))) <==> reply is Ok,
        turn_error(false, Ok(())).len() == 0,
        replies(reply, turn_refusal(false, Err(error))) <==> reply is Err && reply->Err_0.code
            == Code::Internal && reply->Err_0.message@ == error,
        turn_error(false, Err(error)) == error,
{
}

/// The result of a run is known by its error.
pub proof fn law_result_is_known_by_its_error(result: Result<(), String>)
    ensures
        result is Ok ==> result_view(result) is Ok,
        result matches Err(error) ==> result_view(result) == Err::<(), Seq<char>>(error@),
{
}

/// What clients are refused with: each refusal has its kind, and says what is
/// wrong.
pub proof fn law_refusals_say_what_is_wrong(
    expected: Seq<char>,
    got: Seq<char>,
    error: Seq<char>,
)
    ensures
        version_mismatch(expected, got).code == Code::FailedPrecondition,
        version_mismatch(expected, got).message == "payload version mismatch: expected "@
            + expected + ", got "@ + got,
        agent_not_found().code == Code::NotFound,
        agent_not_found().message == "agent not found"@,
        owned_by_another().code == Code::FailedPrecondition,
        owned_by_another().message == "conversation is owned by another agent"@,
        agent_failed(error).code == Code::Internal,
        agent_failed(error).message == error,
{
}

/// A request finds the agent that it names if the server has one of that name,
/// and is refused otherwise.
pub proof fn law_request_finds_the_agent_it_names<A>(
    server: AgentServer<A>,
    agent_id: Seq<char>,
    agent: Result<&A, Status>,
)
    requires
        server.finds(agent_id, agent),
    ensures
        agent is Ok <==> server.registry.agents@.contains_key(agent_id),
        agent is Ok ==> *agent->Ok_0 == server.registry.agents@[agent_id],
        agent is Err ==> agent->Err_0.code == Code::NotFound && agent->Err_0.message@
            == "agent not found"@,
{
}

/// A new agent and its state have the same name and the same conversation.
pub proof fn law_named_agent_has_its_name(
    agent_id: Seq<char>,
    conversation_id: Seq<char>,
    agent: (NewAgent, AgentState),
)
    requires
        named_agent(agent_id, conversation_id, agent),
    ensures
        agent.0.agent_id@ == agent_id,
        agent.0.conversation_id@ == conversation_id,
        agent.1.agent_id@ == agent_id,
        agent.1.conversation_id@ == conversation_id,
        agent.1.fanout@.len() == 0,
        agent.1.turn_id is None,
{
}

/// The registry is known by its two maps.
pub proof fn law_registry_is_known_by_its_maps<A>(registry: Registry<A>, key: Seq<char>)
    ensures
        registry@.agents.contains_key(key) == registry.agents@.contains_key(key),
        registry.agents@.contains_key(key) ==> registry@.agents[key] == registry.agents@[key],
        registry@.owners.contains_key(key) == registry.owners@.contains_key(key),
        registry.owners@.contains_key(key) ==> registry@.owners[key] == registry.owners@[key]@,
{
}

/// What is changed in the registry is changed for the agent and the conversation
/// that it is about, and for no other.
pub proof fn law_registry_changes_only_where_it_is_meant_to<A>(
    registry: RegistryView<A>,
    agent_id: Seq<char>,
    conversation_id: Seq<char>,
    previous: Seq<char>,
    handle: A,
    key: Seq<char>,
)
    ensures
        ({
            let after = registry.registered(agent_id, conversation_id, handle);
            &&& after.agents.contains_key(agent_id) && after.agents[agent_id] == handle
            &&& after.owners.contains_key(conversation_id) && after.owners[conversation_id]
                == agent_id
            &&& key != agent_id ==> after.agents.contains_key(key)
                == registry.agents.contains_key(key) && (registry.agents.contains_key(key)
                ==> after.agents[key] == registry.agents[key])
            &&& key != conversation_id ==> after.owners.contains_key(key)
                == registry.owners.contains_key(key) && (registry.owners.contains_key(key)
                ==> after.owners[key] == registry.owners[key])
        }),
        ({
            let after = registry.without_agent(agent_id);
            &&& !after.agents.contains_key(agent_id)
            &&& after.owners == registry.owners
            &&& key != agent_id ==> after.agents.contains_key(key)
                == registry.agents.contains_key(key) && (registry.agents.contains_key(key)
                ==> after.agents[key] == registry.agents[key])
        }),
        ({
            let after = registry.disowned(conversation_id);
            &&& !after.owners.contains_key(conversation_id)
            &&& after.agents == registry.agents
            &&& key != conversation_id ==> after.owners.contains_key(key)
                == registry.owners.contains_key(key) && (registry.owners.contains_key(key)
                ==> after.owners[key] == registry.owners[key])
        }),
        ({
            let after = registry.moved(agent_id, previous, conversation_id);
            &&& after.agents == registry.agents
            &&& after.owners.contains_key(conversation_id) && after.owners[conversation_id]
                == agent_id
            &&& previous != conversation_id ==> !after.owners.contains_key(previous)
            &&& key != conversation_id && key != previous ==> after.owners.contains_key(key)
                == registry.owners.contains_key(key) && (registry.owners.contains_key(key)
                ==> after.owners[key] == registry.owners[key])
        }),
        RegistryView::<A>::empty().agents.dom().len() == 0,
        !RegistryView::<A>::empty().agents.contains_key(key),
        !RegistryView::<A>::empty().owners.contains_key(key),
{
}

/// A client is put through to the owner of a conversation while that is there,
/// and a conversation belongs to another just when it has an owner of another
/// name.
pub proof fn law_owner_decides<A>(
    registry: RegistryView<A>,
    conversation_id: Seq<char>,
    agent_id: Seq<char>,
)
    ensures
        registry.attached(conversation_id) == Some(agent_id) <==> registry.owners.contains_key(
            conversation_id,
        ) && registry.owners[conversation_id] == agent_id && registry.agents.contains_key(agent_id),
        registry.owned_by_other(conversation_id, agent_id) <==> registry.owners.contains_key(
            conversation_id,
        ) && registry.owners[conversation_id] != agent_id,
{
}

/// While no name is drawn twice, every agent that is made is reached by its name
/// from then on, and where no two are made for one conversation, a client is put
/// through to the agent that was made for it: no agent takes the place of
/// another.
pub proof fn law_every_drawn_agent_is_reached<A>(
    trace: Seq<RegistryView<A>>,
    names: Seq<Seq<char>>,
    conversations: Seq<Seq<char>>,
    handles: Seq<A>,
    i: int,
)
    requires
        trace.len() == names.len() + 1,
        conversations.len() == names.len(),
        handles.len() == names.len(),
        forall|k: int|
            0 <= k < names.len() ==> #[trigger] trace[k + 1] == trace[k].registered(
                names[k],
                conversations[k],
                handles[k],
            ),
        names.no_duplicates(),
        conversations.no_duplicates(),
        0 <= i < names.len(),
    ensures
        trace.last().agents.contains_key(names[i]),
        trace.last().agents[names[i]] == handles[i],
        trace.last().attached(conversations[i]) == Some(names[i]),
    decreases names.len(),
{
    let n = names.len() - 1;
    assert(trace[n + 1] == trace[n].registered(names[n], conversations[n], handles[n]));
    assert(trace.last() == trace[n + 1]);
    if i < n {
        let earlier = trace.drop_last();
        assert forall|k: int| 0 <= k < n implies #[trigger] earlier[k + 1]
            == earlier[k].registered(
            names.drop_last()[k],
            conversations.drop_last()[k],
            handles.drop_last()[k],
        ) by {
            assert(trace[k + 1] == trace[k].registered(names[k], conversations[k], handles[k]));
        }
        law_every_drawn_agent_is_reached(
            earlier,
            names.drop_last(),
            conversations.drop_last(),
            handles.drop_last(),
            i,
        );
        assert(earlier.last() == trace[n]);
        assert(names[i] != names[n]);
        assert(conversations[i] != conversations[n]);
    }
}

/// A stream does at a look what is ready at the two ends, the notice first.
pub proof fn law_stream_goes_by_what_is_ready(
    notice: Option<Option<Status>>,
    event: Option<Option<AgentEvent>>,
)
    ensures
        notice matches Some(Some(status)) ==> {
            &&& Progress::Watching.serve(look_of(notice, event)).progress is Ended
            &&& Progress::Watching.serve(look_of(notice, event)).item matches Some(Err(shown))
            &&& shown.code == status.code
            &&& shown.message == status.message@
        },
        notice is None ==> {
            let served = Progress::Watching.serve(look_of(notice, event));
            &&& event is None ==> served.progress is Watching && served.item is None
            &&& event matches Some(None) ==> served.progress is Ended && served.item is None
            &&& event matches Some(Some(e)) ==> served.progress is Watching && served.item
                == Some(Ok::<EventView, StatusView>(e@))
        },
        notice matches Some(None) ==> {
            let served = Progress::Watching.serve(look_of(notice, event));
            &&& event is None ==> served.progress is Draining && served.item is None
            &&& event matches Some(None) ==> served.progress is Ended && served.item is None
            &&& event matches Some(Some(e)) ==> served.progress is Draining && served.item
                == Some(Ok::<EventView, StatusView>(e@))
        },
        ({
            let served = Progress::Draining.serve(look_of(notice, event));
            &&& event is None ==> served.progress is Draining && served.item is None
            &&& event matches Some(None) ==> served.progress is Ended && served.item is None
            &&& event matches Some(Some(e)) ==> served.progress is Draining && served.item
                == Some(Ok::<EventView, StatusView>(e@))
        }),
        Progress::Ended.serve(look_of(notice, event)).progress is Ended,
        Progress::Ended.serve(look_of(notice, event)).item is None,
{
}

/// A step of a stream gives the event or the error that it has, and only an
/// error or the end ends the stream.
pub proof fn law_step_gives_what_it_has(
    step: StreamStep,
    notice: Option<Status>,
    event: Option<AgentEvent>,
)
    ensures
        step matches StreamStep::Give(e) ==> step.item() == Some(Ok::<EventView, StatusView>(e@))
            && step.goes_on(),
        step matches StreamStep::Fail(status) ==> step.item() == Some(
            Err::<EventView, StatusView>(status@),
        ) && !step.goes_on(),
        step is Wait ==> step.item() is None && step.goes_on(),
        step is End ==> step.item() is None && !step.goes_on(),
        notice matches Some(status) ==> notice_view(notice) == Some(status@),
        notice is None ==> notice_view(notice) is None,
        event matches Some(e) ==> event_view(event) == Some(e@),
        event is None ==> event_view(event) is None,
{
}

/// A step shows what the stream does just when it gives the same and ends where
/// the stream ends.
pub proof fn law_step_shows_what_the_stream_does(step: StreamStep, served: Served)
    ensures
        step.shows(served) <==> step.item() == served.item && (step.goes_on()
            <==> !(served.progress is Ended)),
{
}

/// At the front of a queue is what came first, and behind the last the end, if
/// nothing more can come.
pub proof fn law_front_of_a_queue<T>(waiting: Seq<T>, closed: bool)
    ensures
        waiting.len() > 0 ==> front(waiting, closed) == Some(Some(waiting[0])),
        waiting.len() == 0 ==> front(waiting, closed) == if closed {
            Some(None::<T>)
        } else {
            None
        },
{
}

/// A subscriber may be behind by this many events.
pub proof fn law_queue_length()
    ensures
        QUEUE_LENGTH == 1024,
{
}

} // verus!
