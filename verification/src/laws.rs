//! What holds of the server as a whole.

use vstd::prelude::*;
use vstd::seq_lib::{group_to_multiset_ensures, lemma_multiset_commutative};

use crate::agent::{published, AgentStateView};
use crate::event::{agent_destroyed_event, turn_completed_event, EventView};
use crate::fanout::{
    all_told, broadcast_done, departed, overflow_notice, possible, pruned, remaining,
    swap_removed, told, views, Broadcast, Outcome, Subscriber, SubscriberView,
};
use crate::registry::RegistryView;
use crate::status::{Code, StatusView};
use crate::subscription::{front, progress_after, stream, Look, Progress};
use crate::turn::{turn_begun, turn_error, turn_refusal};

verus! {

/// A client that asks for an agent on the conversation of a new agent is put
/// through to that agent.
pub proof fn law_new_agent_is_attached<A>(
    registry: RegistryView<A>,
    agent_id: Seq<char>,
    conversation_id: Seq<char>,
    handle: A,
)
    ensures
        registry.registered(agent_id, conversation_id, handle).attached(conversation_id) == Some(
            agent_id,
        ),
{
}

/// A new agent changes nothing for a client on another conversation, unless
/// its name stands there already for an agent that is gone.
pub proof fn law_new_agent_spares_other_conversations<A>(
    registry: RegistryView<A>,
    agent_id: Seq<char>,
    conversation_id: Seq<char>,
    handle: A,
    other: Seq<char>,
)
    requires
        other != conversation_id,
        registry.owners.contains_key(other) ==> registry.owners[other] != agent_id,
    ensures
        registry.registered(agent_id, conversation_id, handle).attached(other)
            == registry.attached(other),
{
}

/// An agent that is destroyed is not reached by any request, and no client is
/// put through to it.
pub proof fn law_destroyed_agent_is_not_reached<A>(
    registry: RegistryView<A>,
    agent_id: Seq<char>,
    conversation_id: Seq<char>,
    any: Seq<char>,
)
    ensures
        !registry.without_agent(agent_id).disowned(conversation_id).agents.contains_key(agent_id),
        registry.without_agent(agent_id).disowned(conversation_id).attached(any) != Some(agent_id),
        registry.without_agent(agent_id).disowned(conversation_id).attached(conversation_id)
            is None,
{
}

/// To destroy an agent twice is to destroy it once: the second time there is
/// none to take down, and nothing changes.
pub proof fn law_destroy_is_idempotent<A>(registry: RegistryView<A>, agent_id: Seq<char>)
    ensures
        !registry.without_agent(agent_id).agents.contains_key(agent_id),
        registry.without_agent(agent_id).without_agent(agent_id) == registry.without_agent(
            agent_id,
        ),
{
    assert(registry.without_agent(agent_id).agents.remove(agent_id)
        =~= registry.without_agent(agent_id).agents);
}

/// To destroy an agent leaves every other agent where it is, and every other
/// conversation with its agent.
pub proof fn law_destroy_spares_others<A>(
    registry: RegistryView<A>,
    agent_id: Seq<char>,
    conversation_id: Seq<char>,
    other_agent: Seq<char>,
    other_conversation: Seq<char>,
)
    requires
        other_agent != agent_id,
        other_conversation != conversation_id,
    ensures
        ({
            let after = registry.without_agent(agent_id).disowned(conversation_id);
            &&& after.agents.contains_key(other_agent) == registry.agents.contains_key(other_agent)
            &&& registry.agents.contains_key(other_agent) ==> after.agents[other_agent]
                == registry.agents[other_agent]
            &&& registry.attached(other_conversation) != Some(agent_id) ==> after.attached(
                other_conversation,
            ) == registry.attached(other_conversation)
        }),
{
}

/// A client that asks for an agent on the conversation that an agent has
/// changed over to is put through to it; on the one that it gave up there is
/// no agent any more, and on all others the one that there was.
pub proof fn law_load_moves_the_conversation<A>(
    registry: RegistryView<A>,
    agent_id: Seq<char>,
    previous: Seq<char>,
    conversation_id: Seq<char>,
    other: Seq<char>,
)
    requires
        registry.agents.contains_key(agent_id),
        other != previous,
        other != conversation_id,
    ensures
        ({
            let after = registry.moved(agent_id, previous, conversation_id);
            &&& after.attached(conversation_id) == Some(agent_id)
            &&& previous != conversation_id ==> after.attached(previous) is None
            &&& after.attached(other) == registry.attached(other)
            &&& after.agents == registry.agents
        }),
{
}

/// Agents and conversations match: `conversations` says which conversation each
/// agent is on, each agent owns the one that it is on, and each conversation
/// that is owned has its owner on it.
pub open spec fn matched<A>(
    registry: RegistryView<A>,
    conversations: Map<Seq<char>, Seq<char>>,
) -> bool {
    &&& registry.agents.dom() == conversations.dom()
    &&& forall|agent_id: Seq<char>| #[trigger]
        conversations.contains_key(agent_id) ==> {
            &&& registry.owners.contains_key(conversations[agent_id])
            &&& registry.owners[conversations[agent_id]] == agent_id
        }
    &&& forall|conversation_id: Seq<char>| #[trigger]
        registry.owners.contains_key(conversation_id) ==> {
            &&& conversations.contains_key(registry.owners[conversation_id])
            &&& conversations[registry.owners[conversation_id]] == conversation_id
        }
}

/// A server without agents matches.
pub proof fn law_empty_server_matches<A>()
    ensures
        matched(RegistryView::<A>::empty(), Map::empty()),
{
    assert(RegistryView::<A>::empty().agents.dom() =~= Map::<Seq<char>, Seq<char>>::empty().dom());
}

/// While agents and conversations match, no two agents are on one
/// conversation; a client is put through to an agent just where one is on the
/// conversation; and a change of conversation is refused just where another
/// agent is on it.
pub proof fn law_conversation_has_one_agent<A>(
    registry: RegistryView<A>,
    conversations: Map<Seq<char>, Seq<char>>,
    agent_id: Seq<char>,
    other: Seq<char>,
    conversation_id: Seq<char>,
)
    requires
        matched(registry, conversations),
    ensures
        conversations.contains_key(agent_id) && conversations.contains_key(other)
            && conversations[agent_id] == conversations[other] ==> agent_id == other,
        registry.attached(conversation_id) == Some(agent_id) <==> conversations.contains_key(
            agent_id,
        ) && conversations[agent_id] == conversation_id,
        registry.owned_by_other(conversation_id, agent_id) <==> exists|x: Seq<char>|
            x != agent_id && #[trigger] conversations.contains_key(x) && conversations[x]
                == conversation_id,
{
    if registry.owned_by_other(conversation_id, agent_id) {
        let x = registry.owners[conversation_id];
        assert(x != agent_id && conversations.contains_key(x) && conversations[x]
            == conversation_id);
    }
    assert(registry.agents.dom().contains(agent_id) == conversations.dom().contains(agent_id));
    if registry.owners.contains_key(conversation_id) {
        let x = registry.owners[conversation_id];
        assert(registry.agents.dom().contains(x) == conversations.dom().contains(x));
    }
}

/// Agents and conversations still match after an agent is created, if no other
/// request comes in between: a new name, on a conversation that has no agent.
pub proof fn law_create_keeps_match<A>(
    registry: RegistryView<A>,
    conversations: Map<Seq<char>, Seq<char>>,
    agent_id: Seq<char>,
    conversation_id: Seq<char>,
    handle: A,
)
    requires
        matched(registry, conversations),
        registry.attached(conversation_id) is None,
        !registry.agents.contains_key(agent_id),
    ensures
        matched(
            registry.registered(agent_id, conversation_id, handle),
            conversations.insert(agent_id, conversation_id),
        ),
{
    let after = registry.registered(agent_id, conversation_id, handle);
    let now = conversations.insert(agent_id, conversation_id);
    assert(!conversations.dom().contains(agent_id));
    assert(!registry.owners.contains_key(conversation_id)) by {
        if registry.owners.contains_key(conversation_id) {
            assert(conversations.dom().contains(registry.owners[conversation_id]));
            assert(registry.agents.dom().contains(registry.owners[conversation_id]));
        }
    }
    assert(after.agents.dom() =~= now.dom());
    assert forall|x: Seq<char>| #[trigger] now.contains_key(x) implies {
        &&& after.owners.contains_key(now[x])
        &&& after.owners[now[x]] == x
    } by {
        if x != agent_id {
            assert(conversations.contains_key(x));
        }
    }
    assert forall|c: Seq<char>| #[trigger] after.owners.contains_key(c) implies {
        &&& now.contains_key(after.owners[c])
        &&& now[after.owners[c]] == c
    } by {
        if c != conversation_id {
            assert(registry.owners.contains_key(c));
        }
    }
}

/// Agents and conversations still match after an agent is destroyed, if no
/// other request comes in between.
pub proof fn law_destroy_keeps_match<A>(
    registry: RegistryView<A>,
    conversations: Map<Seq<char>, Seq<char>>,
    agent_id: Seq<char>,
)
    requires
        matched(registry, conversations),
        registry.agents.contains_key(agent_id),
    ensures
        matched(
            registry.without_agent(agent_id).disowned(conversations[agent_id]),
            conversations.remove(agent_id),
        ),
{
    let after = registry.without_agent(agent_id).disowned(conversations[agent_id]);
    let now = conversations.remove(agent_id);
    assert(conversations.dom().contains(agent_id));
    assert(conversations.contains_key(agent_id));
    assert(after.agents.dom() =~= now.dom());
    assert forall|x: Seq<char>| #[trigger] now.contains_key(x) implies {
        &&& after.owners.contains_key(now[x])
        &&& after.owners[now[x]] == x
    } by {
        assert(conversations.contains_key(x));
    }
    assert forall|c: Seq<char>| #[trigger] after.owners.contains_key(c) implies {
        &&& now.contains_key(after.owners[c])
        &&& now[after.owners[c]] == c
    } by {
        assert(registry.owners.contains_key(c));
    }
}

/// Agents and conversations still match after an agent has changed over to a
/// conversation that is not refused to it, if no other request comes in
/// between.
pub proof fn law_load_keeps_match<A>(
    registry: RegistryView<A>,
    conversations: Map<Seq<char>, Seq<char>>,
    agent_id: Seq<char>,
    conversation_id: Seq<char>,
)
    requires
        matched(registry, conversations),
        registry.agents.contains_key(agent_id),
        !registry.owned_by_other(conversation_id, agent_id),
    ensures
        matched(
            registry.moved(agent_id, conversations[agent_id], conversation_id),
            conversations.insert(agent_id, conversation_id),
        ),
{
    let after = registry.moved(agent_id, conversations[agent_id], conversation_id);
    let now = conversations.insert(agent_id, conversation_id);
    assert(conversations.dom().contains(agent_id));
    assert(conversations.contains_key(agent_id));
    assert(after.agents.dom() =~= now.dom());
    assert forall|x: Seq<char>| #[trigger] now.contains_key(x) implies {
        &&& after.owners.contains_key(now[x])
        &&& after.owners[now[x]] == x
    } by {
        assert(conversations.contains_key(x));
    }
    assert forall|c: Seq<char>| #[trigger] after.owners.contains_key(c) implies {
        &&& now.contains_key(after.owners[c])
        &&& now[after.owners[c]] == c
    } by {
        if c != conversation_id {
            assert(registry.owners.contains_key(c));
        }
    }
}

/// A server, and the conversation that each of its agents is on.
#[verifier::reject_recursive_types(A)]
pub struct ServerView<A> {
    pub registry: RegistryView<A>,
    pub conversations: Map<Seq<char>, Seq<char>>,
}

impl<A> ServerView<A> {
    /// No agents.
    pub open spec fn empty() -> Self {
        ServerView { registry: RegistryView::empty(), conversations: Map::empty() }
    }

    /// An agent was made for a conversation that had none.
    pub open spec fn created(
        self,
        agent_id: Seq<char>,
        conversation_id: Seq<char>,
        handle: A,
        after: Self,
    ) -> bool {
        &&& self.registry.attached(conversation_id) is None
        &&& !self.registry.agents.contains_key(agent_id)
        &&& after.registry == self.registry.registered(agent_id, conversation_id, handle)
        &&& after.conversations == self.conversations.insert(agent_id, conversation_id)
    }

    /// An agent was taken down.
    pub open spec fn destroyed(self, agent_id: Seq<char>, after: Self) -> bool {
        &&& self.registry.agents.contains_key(agent_id)
        &&& after.registry == self.registry.without_agent(agent_id).disowned(
            self.conversations[agent_id],
        )
        &&& after.conversations == self.conversations.remove(agent_id)
    }

    /// An agent changed over to a conversation that was not refused to it.
    pub open spec fn loaded(
        self,
        agent_id: Seq<char>,
        conversation_id: Seq<char>,
        after: Self,
    ) -> bool {
        &&& self.registry.agents.contains_key(agent_id)
        &&& !self.registry.owned_by_other(conversation_id, agent_id)
        &&& after.registry == self.registry.moved(
            agent_id,
            self.conversations[agent_id],
            conversation_id,
        )
        &&& after.conversations == self.conversations.insert(agent_id, conversation_id)
    }

    /// A request was answered that no other came in between: it made an agent,
    /// took one down or moved one to another conversation, or it changed
    /// nothing, because it was refused or only asked.
    pub open spec fn answered(self, after: Self) -> bool {
        ||| after == self
        ||| exists|agent_id: Seq<char>, conversation_id: Seq<char>, handle: A| #[trigger]
            self.created(agent_id, conversation_id, handle, after)
        ||| exists|agent_id: Seq<char>| #[trigger] self.destroyed(agent_id, after)
        ||| exists|agent_id: Seq<char>, conversation_id: Seq<char>| #[trigger]
            self.loaded(agent_id, conversation_id, after)
    }

    /// Agents and conversations match, and there are as many conversations with
    /// an owner as agents.
    pub open spec fn in_order(self) -> bool {
        &&& matched(self.registry, self.conversations)
        &&& self.registry.agents.dom().finite()
        &&& self.registry.owners.dom().finite()
        &&& self.registry.agents.dom().len() == self.registry.owners.dom().len()
    }
}

/// From an empty server on, after any number of requests of which none comes in
/// between another, agents and conversations match: in particular there are as
/// many conversations with an owner as agents.
pub proof fn law_match_lasts<A>(trace: Seq<ServerView<A>>, n: int)
    requires
        0 <= n < trace.len(),
        trace[0] == ServerView::<A>::empty(),
        forall|i: int| 0 < i < trace.len() ==> trace[i - 1].answered(#[trigger] trace[i]),
    ensures
        trace[n].in_order(),
    decreases n,
{
    if n == 0 {
        law_empty_server_matches::<A>();
    } else {
        law_match_lasts(trace, n - 1);
        assert(trace[n - 1].answered(trace[n]));
        lemma_answer_keeps_order(trace[n - 1], trace[n]);
    }
}

proof fn lemma_answer_keeps_order<A>(before: ServerView<A>, after: ServerView<A>)
    requires
        before.in_order(),
        before.answered(after),
    ensures
        after.in_order(),
{
    let registry = before.registry;
    let conversations = before.conversations;
    if after == before {
    } else if exists|agent_id: Seq<char>, conversation_id: Seq<char>, handle: A| #[trigger]
        before.created(agent_id, conversation_id, handle, after) {
        let (agent_id, conversation_id, handle) = choose|
            agent_id: Seq<char>,
            conversation_id: Seq<char>,
            handle: A,
        | #[trigger]
            before.created(agent_id, conversation_id, handle, after);
        law_create_keeps_match(registry, conversations, agent_id, conversation_id, handle);
        assert(!registry.owners.contains_key(conversation_id)) by {
            if registry.owners.contains_key(conversation_id) {
                assert(conversations.dom().contains(registry.owners[conversation_id]));
                assert(registry.agents.dom().contains(registry.owners[conversation_id]));
            }
        }
        assert(after.registry.agents.dom() =~= registry.agents.dom().insert(agent_id));
        assert(after.registry.owners.dom() =~= registry.owners.dom().insert(conversation_id));
    } else if exists|agent_id: Seq<char>| #[trigger] before.destroyed(agent_id, after) {
        let agent_id = choose|agent_id: Seq<char>| #[trigger] before.destroyed(agent_id, after);
        law_destroy_keeps_match(registry, conversations, agent_id);
        assert(conversations.dom().contains(agent_id));
        assert(conversations.contains_key(agent_id));
        assert(after.registry.agents.dom() =~= registry.agents.dom().remove(agent_id));
        assert(after.registry.owners.dom() =~= registry.owners.dom().remove(
            conversations[agent_id],
        ));
    } else {
        let (agent_id, conversation_id) = choose|
            agent_id: Seq<char>,
            conversation_id: Seq<char>,
        | #[trigger]
            before.loaded(agent_id, conversation_id, after);
        law_load_keeps_match(registry, conversations, agent_id, conversation_id);
        assert(conversations.dom().contains(agent_id));
        assert(conversations.contains_key(agent_id));
        let fewer = registry.owners.dom().remove(conversations[agent_id]);
        assert(!fewer.contains(conversation_id)) by {
            if fewer.contains(conversation_id) {
                assert(registry.owners.contains_key(conversation_id));
            }
        }
        assert(after.registry.owners.dom() =~= fewer.insert(conversation_id));
    }
}

/// Items that stand before `n` in both are left over alike.
proof fn lemma_remaining_prefix<T>(
    items: Seq<T>,
    others: Seq<T>,
    outcomes: Seq<Outcome>,
    n: nat,
)
    requires
        n <= items.len(),
        n <= others.len(),
        forall|i: int| 0 <= i < n ==> items[i] == others[i],
    ensures
        remaining(items, outcomes, n) == remaining(others, outcomes, n),
    decreases n,
{
    if n > 0 {
        lemma_remaining_prefix(items, others, outcomes, (n - 1) as nat);
    }
}

proof fn lemma_pruned_multiset<T>(items: Seq<T>, outcomes: Seq<Outcome>, n: nat)
    requires
        n <= items.len(),
    ensures
        pruned(items, outcomes, n).to_multiset() == (remaining(items, outcomes, n) + items.skip(
            n as int,
        )).to_multiset(),
    decreases n,
{
    broadcast use group_to_multiset_ensures;

    let tail = items.skip(n as int);
    if n == 0 {
        assert(remaining(items, outcomes, n) + tail =~= items);
    } else {
        let m = (n - 1) as nat;
        let kept = remaining(items, outcomes, m);
        if outcomes[n - 1].leaves() {
            let rest = swap_removed(items, n - 1);
            lemma_pruned_multiset(rest, outcomes, m);
            lemma_remaining_prefix(rest, items, outcomes, m);
            lemma_multiset_commutative(kept, rest.skip(m as int));
            lemma_multiset_commutative(kept, tail);
            if tail.len() == 0 {
                assert(rest.skip(m as int) =~= tail);
            } else {
                let middle = tail.drop_last();
                assert(tail =~= middle + seq![tail.last()]);
                assert(rest.skip(m as int) =~= seq![tail.last()] + middle);
                lemma_multiset_commutative(middle, seq![tail.last()]);
                lemma_multiset_commutative(seq![tail.last()], middle);
                assert(rest.skip(m as int).to_multiset() =~= tail.to_multiset());
            }
        } else {
            lemma_pruned_multiset(items, outcomes, m);
            assert(kept + items.skip(m as int) =~= kept.push(items[n - 1]) + tail);
        }
    }
}

/// Who is left is just who did not leave: whatever the order in which those
/// who leave are taken out, nobody else is lost and nobody is doubled.
pub proof fn law_pruning_loses_nobody_else<T>(items: Seq<T>, outcomes: Seq<Outcome>)
    requires
        outcomes.len() == items.len(),
    ensures
        pruned(items, outcomes, items.len()).to_multiset() == remaining(
            items,
            outcomes,
            items.len(),
        ).to_multiset(),
{
    lemma_pruned_multiset(items, outcomes, items.len());
    assert(remaining(items, outcomes, items.len()) + items.skip(items.len() as int)
        =~= remaining(items, outcomes, items.len()));
}

proof fn lemma_remaining_members<T>(items: Seq<T>, outcomes: Seq<Outcome>, n: nat, k: int) -> (i:
    int)
    requires
        n <= items.len(),
        0 <= k < remaining(items, outcomes, n).len(),
    ensures
        0 <= i < n,
        !outcomes[i].leaves(),
        items[i] == remaining(items, outcomes, n)[k],
    decreases n,
{
    if outcomes[n - 1].leaves() {
        lemma_remaining_members(items, outcomes, (n - 1) as nat, k)
    } else if k == remaining(items, outcomes, n).len() - 1 {
        n - 1
    } else {
        lemma_remaining_members(items, outcomes, (n - 1) as nat, k)
    }
}

proof fn lemma_pruned_members<T>(items: Seq<T>, outcomes: Seq<Outcome>, k: int) -> (i: int)
    requires
        outcomes.len() == items.len(),
        0 <= k < pruned(items, outcomes, items.len()).len(),
    ensures
        0 <= i < items.len(),
        !outcomes[i].leaves(),
        items[i] == pruned(items, outcomes, items.len())[k],
{
    broadcast use group_to_multiset_ensures;

    let left = pruned(items, outcomes, items.len());
    let rest = remaining(items, outcomes, items.len());
    law_pruning_loses_nobody_else(items, outcomes);
    assert(left.contains(left[k]));
    assert(left.to_multiset().count(left[k]) > 0);
    assert(rest.contains(left[k]));
    let j = choose|j: int| 0 <= j < rest.len() && rest[j] == left[k];
    lemma_remaining_members(items, outcomes, items.len(), j)
}

/// Whoever is still subscribed after an event that must not be missed has been
/// told of it, last of all.
pub proof fn law_who_stays_was_told(
    before: Seq<SubscriberView>,
    event: EventView,
    after: Seq<SubscriberView>,
    report: Broadcast,
    k: int,
)
    requires
        broadcast_done(before, event, after, report),
        !event.droppable(),
        0 <= k < after.len(),
    ensures
        after[k].events.len() > 0,
        after[k].events.last() == event,
{
    let told = all_told(before, event, report.outcomes@);
    let i = lemma_pruned_members(told, report.outcomes@, k);
    assert(possible(report.outcomes@[i], event.droppable()));
}

/// A broadcast gives no notice to anyone who stays, and takes back nothing that
/// was sent before.
pub proof fn law_who_stays_has_no_notice(
    before: Seq<SubscriberView>,
    event: EventView,
    after: Seq<SubscriberView>,
    report: Broadcast,
    k: int,
) -> (i: int)
    requires
        broadcast_done(before, event, after, report),
        0 <= k < after.len(),
    ensures
        0 <= i < before.len(),
        after[k].event_queue == before[i].event_queue,
        after[k].notice_queue == before[i].notice_queue,
        after[k].notices == before[i].notices,
        after[k].events == before[i].events || after[k].events == before[i].events.push(event),
{
    let told = all_told(before, event, report.outcomes@);
    lemma_pruned_members(told, report.outcomes@, k)
}

/// An event that may be missed ends no subscription but those whose subscriber
/// had gone, and no one is given notice.
pub proof fn law_droppable_event_breaks_nothing_off(
    before: Seq<SubscriberView>,
    event: EventView,
    after: Seq<SubscriberView>,
    report: Broadcast,
    i: int,
)
    requires
        broadcast_done(before, event, after, report),
        event.droppable(),
        0 <= i < before.len(),
    ensures
        report.outcomes@[i].leaves() ==> report.outcomes@[i] is Gone,
        told(before[i], event, report.outcomes@[i]).notices == before[i].notices,
{
    assert(possible(report.outcomes@[i], event.droppable()));
}

/// A subscriber that has no room for an event that it must not miss leaves; if
/// it can be notified, the notice says that its queue is exhausted, and it is
/// the last.
pub proof fn law_overflow_is_noticed(
    before: Seq<SubscriberView>,
    event: EventView,
    after: Seq<SubscriberView>,
    report: Broadcast,
    i: int,
)
    requires
        broadcast_done(before, event, after, report),
        0 <= i < before.len(),
        report.outcomes@[i] is Overflowed,
    ensures
        !event.droppable(),
        report.outcomes@[i].leaves(),
        views(report.departed@).contains(told(before[i], event, report.outcomes@[i])),
        report.outcomes@[i]->notified ==> {
            let notices = told(before[i], event, report.outcomes@[i]).notices;
            notices == before[i].notices.push(overflow_notice()) && notices.last().code
                == Code::ResourceExhausted
        },
{
    assert(possible(report.outcomes@[i], event.droppable()));
    let told = all_told(before, event, report.outcomes@);
    lemma_departed_contains(told, report.outcomes@, before.len(), i);
}

pub(crate) proof fn lemma_departed_contains<T>(
    items: Seq<T>,
    outcomes: Seq<Outcome>,
    n: nat,
    i: int,
)
    requires
        0 <= i < n <= items.len(),
        outcomes[i].leaves(),
    ensures
        departed(items, outcomes, n).contains(items[i]),
    decreases n,
{
    let all = departed(items, outcomes, n);
    let rest = departed(items, outcomes, (n - 1) as nat);
    if i == n - 1 {
        assert(all[0] == items[i]);
    } else {
        lemma_departed_contains(items, outcomes, (n - 1) as nat, i);
        let j = choose|j: int| 0 <= j < rest.len() && rest[j] == items[i];
        if outcomes[n - 1].leaves() {
            assert(all[j + 1] == items[i]);
        }
    }
}

/// Everyone whose subscription lasted until the agent was taken down was told
/// so as the last thing, and was given no notice: the stream ends cleanly.
/// Nobody subscribes to the agent afterwards.
pub proof fn law_destroy_is_the_last_event(
    state: AgentStateView,
    closed: Seq<Subscriber>,
    report: Broadcast,
    k: int,
) -> (i: int)
    requires
        broadcast_done(
            state.subscribers,
            agent_destroyed_event(state.agent_id, "agent destroyed"@),
            views(closed),
            report,
        ),
        0 <= k < closed.len(),
    ensures
        0 <= i < state.subscribers.len(),
        closed[k]@.event_queue == state.subscribers[i].event_queue,
        closed[k]@.events == state.subscribers[i].events.push(
            agent_destroyed_event(state.agent_id, "agent destroyed"@),
        ),
        closed[k]@.notices == state.subscribers[i].notices,
        state.taken_down().subscribers.len() == 0,
{
    let event = agent_destroyed_event(state.agent_id, "agent destroyed"@);
    assert(views(closed)[k] == closed[k]@);
    let told = all_told(state.subscribers, event, report.outcomes@);
    let i = lemma_pruned_members(told, report.outcomes@, k);
    assert(possible(report.outcomes@[i], event.droppable()));
    i
}

/// When a turn is over, everyone who still subscribes has been told so.
pub proof fn law_turn_end_is_told(
    before: AgentStateView,
    turn_id: Seq<char>,
    error: Seq<char>,
    after: AgentStateView,
    report: Broadcast,
    k: int,
)
    requires
        published(before, turn_completed_event(before.agent_id, turn_id, error), after, report),
        0 <= k < after.subscribers.len(),
    ensures
        after.subscribers[k].events.last() == turn_completed_event(
            before.agent_id,
            turn_id,
            error,
        ),
{
    law_who_stays_was_told(
        before.subscribers,
        turn_completed_event(before.agent_id, turn_id, error),
        after.subscribers,
        report,
        k,
    );
}

/// To cancel the turn of an agent, or to take the agent down, reaches the turn
/// that the agent has taken up.
pub proof fn law_cancel_reaches_the_turn(
    before: AgentStateView,
    turn_id: Seq<char>,
    number: int,
)
    ensures
        turn_begun(before, turn_id, number).asked_to_stop().cancel.cancelled,
        turn_begun(before, turn_id, number).asked_to_stop().cancel.number == number,
        turn_begun(before, turn_id, number).taken_down().cancel.cancelled,
        turn_begun(before, turn_id, number).taken_down().cancel.number == number,
{
}

/// Events, new subscribers and a change of conversation leave the turn of an
/// agent, its token and the wish to cancel it as they are.
pub proof fn law_nothing_else_touches_the_turn(
    before: AgentStateView,
    event: EventView,
    after: AgentStateView,
    report: Broadcast,
    subscriber: SubscriberView,
    conversation_id: Seq<char>,
)
    requires
        published(before, event, after, report),
    ensures
        after.cancel == before.cancel,
        after.turn_id == before.turn_id,
        before.with_subscriber(subscriber).cancel == before.cancel,
        before.with_subscriber(subscriber).turn_id == before.turn_id,
        before.on_conversation(conversation_id).cancel == before.cancel,
        before.on_conversation(conversation_id).turn_id == before.turn_id,
{
}

/// What can happen to an agent without a word on its turn: events, new
/// subscribers and a change of conversation.
pub open spec fn leaves_the_turn_alone(before: AgentStateView, after: AgentStateView) -> bool {
    ||| exists|event: EventView, report: Broadcast| #[trigger]
        published(before, event, after, report)
    ||| exists|subscriber: SubscriberView| after == #[trigger] before.with_subscriber(subscriber)
    ||| exists|conversation_id: Seq<char>|
        after == #[trigger] before.on_conversation(conversation_id)
}

/// What can happen to an agent while it is at a turn. Only the beginning of
/// another turn is left out: the agent is at one turn at a time.
pub open spec fn happens_during_turn(before: AgentStateView, after: AgentStateView) -> bool {
    ||| leaves_the_turn_alone(before, after)
    ||| after == before.asked_to_stop()
    ||| after == before.taken_down()
}

/// If a turn is cancelled, or its agent is taken down, at any time between its
/// beginning and its end, the wish is still there at the end and concerns this
/// turn, whatever else happens in between: the turn ends as cancelled.
pub proof fn law_cancel_lasts_until_the_turn_ends(
    trace: Seq<AgentStateView>,
    before: AgentStateView,
    turn_id: Seq<char>,
    number: int,
    k: int,
)
    requires
        0 < k < trace.len(),
        trace[0] == turn_begun(before, turn_id, number),
        forall|i: int|
            0 < i < trace.len() ==> happens_during_turn(trace[i - 1], #[trigger] trace[i]),
        trace[k] == trace[k - 1].asked_to_stop() || trace[k] == trace[k - 1].taken_down(),
    ensures
        trace.last().cancel.cancelled,
        trace.last().cancel.number == number,
        trace.last().turn_id == Some(turn_id),
{
    lemma_turn_is_kept(trace, trace.len() - 1, k);
}

proof fn lemma_turn_is_kept(trace: Seq<AgentStateView>, n: int, k: int)
    requires
        0 <= n < trace.len(),
        0 < k < trace.len(),
        forall|i: int|
            0 < i < trace.len() ==> happens_during_turn(trace[i - 1], #[trigger] trace[i]),
        trace[k] == trace[k - 1].asked_to_stop() || trace[k] == trace[k - 1].taken_down(),
    ensures
        trace[n].cancel.number == trace[0].cancel.number,
        trace[n].turn_id == trace[0].turn_id,
        n >= k ==> trace[n].cancel.cancelled,
    decreases n,
{
    if n > 0 {
        lemma_turn_is_kept(trace, n - 1, k);
        assert(happens_during_turn(trace[n - 1], trace[n]));
    }
}

/// Until the agent publishes something or is taken down, nothing is put into
/// the queue of a new subscriber ahead of the snapshot: other subscribers, a
/// change of conversation and a wish to cancel leave it as it is.
pub proof fn law_nothing_precedes_the_snapshot(
    before: AgentStateView,
    subscriber: SubscriberView,
    other: SubscriberView,
    conversation_id: Seq<char>,
)
    requires
        subscriber.events == Seq::<EventView>::empty(),
    ensures
        ({
            let after = before.with_subscriber(subscriber);
            let k = before.subscribers.len() as int;
            &&& after.subscribers[k].events.len() == 0
            &&& after.with_subscriber(other).subscribers[k] == subscriber
            &&& after.on_conversation(conversation_id).subscribers[k] == subscriber
            &&& after.asked_to_stop().subscribers[k] == subscriber
        }),
{
}

/// A turn runs under a token of its own, which nobody has cancelled through the
/// agent: a wish to cancel, or to take the agent down, that came just before it
/// concerns another token.
pub proof fn law_turn_begins_uncancelled(
    before: AgentStateView,
    turn_id: Seq<char>,
    number: int,
)
    requires
        number > before.cancel.number,
    ensures
        !turn_begun(before, turn_id, number).cancel.cancelled,
        turn_begun(before, turn_id, number).cancel.number
            != before.asked_to_stop().cancel.number,
        turn_begun(before, turn_id, number).cancel.number != before.taken_down().cancel.number,
        turn_begun(before.asked_to_stop(), turn_id, number) == turn_begun(before, turn_id, number),
{
}

/// A turn begins, under a token that is newer than the agent's latest one.
pub open spec fn turn_begins(before: AgentStateView, after: AgentStateView) -> bool {
    exists|turn_id: Seq<char>, number: int|
        number > before.cancel.number && after == #[trigger] turn_begun(before, turn_id, number)
}

/// No wish to cancel a turn reaches a later one, however many turns there are
/// and whatever else happens: the token of a turn that begins is none that the
/// agent had before, and nobody has cancelled it through the agent.
pub proof fn law_earlier_cancel_reaches_no_later_turn(
    trace: Seq<AgentStateView>,
    j: int,
    k: int,
)
    requires
        0 <= j < k < trace.len(),
        forall|i: int|
            0 < i < trace.len() ==> happens_during_turn(trace[i - 1], #[trigger] trace[i])
                || turn_begins(trace[i - 1], trace[i]),
        turn_begins(trace[k - 1], trace[k]),
    ensures
        trace[k].cancel.number > trace[j].cancel.number,
        !trace[k].cancel.cancelled,
{
    lemma_tokens_are_newer(trace, j, k - 1);
}

proof fn lemma_tokens_are_newer(trace: Seq<AgentStateView>, j: int, n: int)
    requires
        0 <= j <= n < trace.len(),
        forall|i: int|
            0 < i < trace.len() ==> happens_during_turn(trace[i - 1], #[trigger] trace[i])
                || turn_begins(trace[i - 1], trace[i]),
    ensures
        trace[n].cancel.number >= trace[j].cancel.number,
    decreases n,
{
    if n > j {
        lemma_tokens_are_newer(trace, j, n - 1);
        assert(happens_during_turn(trace[n - 1], trace[n]) || turn_begins(trace[n - 1], trace[n]));
    }
}

/// The tokens of the agents are apart: no two agents have the same, and none is
/// newer than the mint's newest, which has the number `minted`.
pub open spec fn tokens_apart(agents: Map<Seq<char>, AgentStateView>, minted: int) -> bool {
    &&& forall|a: Seq<char>| #[trigger]
        agents.contains_key(a) ==> agents[a].cancel.number <= minted
    &&& forall|a: Seq<char>, b: Seq<char>| #[trigger]
        agents.contains_key(a) && #[trigger] agents.contains_key(b) && a != b
            ==> agents[a].cancel.number != agents[b].cancel.number
}

/// What can happen to the agents, with those that were taken down, and to the
/// mint: `a`, which is `state` now, is added, begins a turn, or something else
/// happens to it.
pub open spec fn agent_step(
    agents: Map<Seq<char>, AgentStateView>,
    minted: int,
    a: Seq<char>,
    state: AgentStateView,
    minted_after: int,
) -> bool {
    if !agents.contains_key(a) {
        &&& state.fresh(a, state.conversation_id)
        &&& state.cancel.number == minted_after
        &&& minted_after > minted
    } else {
        ||| {
            &&& turn_begins(agents[a], state)
            &&& state.cancel.number == minted_after
            &&& minted_after > minted
        }
        ||| {
            &&& happens_during_turn(agents[a], state)
            &&& minted_after == minted
        }
    }
}

/// Such a step takes all agents from `before` to `after`.
pub open spec fn agents_step(
    before: Map<Seq<char>, AgentStateView>,
    minted: int,
    after: Map<Seq<char>, AgentStateView>,
    minted_after: int,
) -> bool {
    exists|a: Seq<char>, state: AgentStateView| #[trigger]
        agent_step(before, minted, a, state, minted_after) && after == before.insert(a, state)
}

/// Whatever happens to the agents of a server, their tokens stay apart.
pub proof fn law_tokens_stay_apart(
    agents: Seq<Map<Seq<char>, AgentStateView>>,
    minted: Seq<int>,
    n: int,
)
    requires
        0 <= n < agents.len(),
        minted.len() == agents.len(),
        agents[0] == Map::<Seq<char>, AgentStateView>::empty(),
        forall|i: int|
            0 < i < agents.len() ==> agents_step(
                agents[i - 1],
                minted[i - 1],
                #[trigger] agents[i],
                minted[i],
            ),
    ensures
        tokens_apart(agents[n], minted[n]),
    decreases n,
{
    if n > 0 {
        law_tokens_stay_apart(agents, minted, n - 1);
        assert(agents_step(agents[n - 1], minted[n - 1], agents[n], minted[n]));
        let before = agents[n - 1];
        let (a, state) = choose|a: Seq<char>, state: AgentStateView| #[trigger]
            agent_step(before, minted[n - 1], a, state, minted[n]) && agents[n] == before.insert(
                a,
                state,
            );
        let after = before.insert(a, state);
        assert forall|b: Seq<char>| #[trigger] after.contains_key(b) implies after[b].cancel.number
            <= minted[n] by {
            if b != a {
                assert(before.contains_key(b));
            }
        }
        assert forall|b: Seq<char>, c: Seq<char>| #[trigger]
            after.contains_key(b) && #[trigger] after.contains_key(c) && b
                != c implies after[b].cancel.number != after[c].cancel.number by {
            if b != a {
                assert(before.contains_key(b));
            }
            if c != a {
                assert(before.contains_key(c));
            }
        }
    }
}

/// A wish to cancel the turn of one agent, or to take that agent down, concerns
/// the turn of no other.
pub proof fn law_cancel_reaches_one_agent(
    agents: Map<Seq<char>, AgentStateView>,
    minted: int,
    a: Seq<char>,
    b: Seq<char>,
)
    requires
        tokens_apart(agents, minted),
        agents.contains_key(a),
        agents.contains_key(b),
        a != b,
    ensures
        agents[a].asked_to_stop().cancel.number != agents[b].cancel.number,
        agents[a].taken_down().cancel.number != agents[b].cancel.number,
{
}

/// What can happen to an agent that stays on its conversation.
pub open spec fn keeps_conversation(before: AgentStateView, after: AgentStateView) -> bool {
    ||| after == before
    ||| exists|event: EventView, report: Broadcast| #[trigger]
        published(before, event, after, report)
    ||| exists|subscriber: SubscriberView| after == #[trigger] before.with_subscriber(subscriber)
    ||| after == before.asked_to_stop()
    ||| after == before.taken_down()
    ||| turn_begins(before, after)
}

/// The last conversation that was loaded, or else the first one. Each of `loads`
/// is the conversation that was loaded at that step, if one was.
pub open spec fn last_loaded(first: Seq<char>, loads: Seq<Option<Seq<char>>>) -> Seq<char>
    decreases loads.len(),
{
    if loads.len() == 0 {
        first
    } else {
        match loads.last() {
            Some(conversation_id) => conversation_id,
            None => last_loaded(first, loads.drop_last()),
        }
    }
}

/// An agent is on the conversation that it last changed over to, or else on the
/// one that it was made for, whatever else happens to it.
pub proof fn law_agent_is_on_the_last_loaded_conversation(
    trace: Seq<AgentStateView>,
    loads: Seq<Option<Seq<char>>>,
    agent_id: Seq<char>,
    first: Seq<char>,
)
    requires
        trace.len() == loads.len() + 1,
        trace[0].fresh(agent_id, first),
        forall|i: int|
            0 <= i < loads.len() ==> match #[trigger] loads[i] {
                Some(conversation_id) => trace[i + 1] == trace[i].on_conversation(conversation_id),
                None => keeps_conversation(trace[i], trace[i + 1]),
            },
    ensures
        trace.last().conversation_id == last_loaded(first, loads),
        trace.last().agent_id == agent_id,
    decreases loads.len(),
{
    if loads.len() > 0 {
        let n = loads.len() - 1;
        let earlier = trace.drop_last();
        let fewer = loads.drop_last();
        assert forall|i: int| 0 <= i < fewer.len() implies match #[trigger] fewer[i] {
            Some(conversation_id) => earlier[i + 1] == earlier[i].on_conversation(conversation_id),
            None => keeps_conversation(earlier[i], earlier[i + 1]),
        } by {
            assert(fewer[i] == loads[i]);
        }
        law_agent_is_on_the_last_loaded_conversation(earlier, fewer, agent_id, first);
        assert(loads[n] == loads.last());
        assert(trace[n] == earlier.last());
        assert(trace[n + 1] == trace.last());
    }
}

/// A turn that is not cancelled through the agent, and whose agent is not taken
/// down, is still not cancelled through the agent when it ends, and the agent's
/// handle is still for the token of this turn.
pub proof fn law_turn_is_not_cancelled_by_others(
    trace: Seq<AgentStateView>,
    before: AgentStateView,
    turn_id: Seq<char>,
    number: int,
)
    requires
        0 < trace.len(),
        trace[0] == turn_begun(before, turn_id, number),
        forall|i: int|
            0 < i < trace.len() ==> leaves_the_turn_alone(trace[i - 1], #[trigger] trace[i]),
    ensures
        !trace.last().cancel.cancelled,
        trace.last().cancel.number == number,
    decreases trace.len(),
{
    if trace.len() > 1 {
        let earlier = trace.drop_last();
        assert forall|i: int| 0 < i < earlier.len() implies leaves_the_turn_alone(
            earlier[i - 1],
            #[trigger] earlier[i],
        ) by {
            assert(earlier[i] == trace[i]);
        }
        law_turn_is_not_cancelled_by_others(earlier, before, turn_id, number);
        let n = trace.len() - 1;
        assert(leaves_the_turn_alone(trace[n - 1], trace[n]));
    }
}

/// The messages of an agent belong to the turn that it has taken up.
pub proof fn law_messages_belong_to_the_turn(
    before: AgentStateView,
    turn_id: Seq<char>,
    number: int,
    index: usize,
    text: Seq<char>,
)
    ensures
        turn_begun(before, turn_id, number).new_message_event(index, text).kind->NewMessage_turn_id
            == turn_id,
        turn_begun(before, turn_id, number).update_message_event(
            index,
            text,
        ).kind->UpdateMessage_turn_id == turn_id,
{
}

/// A turn that was cancelled is answered and told as cancelled, however the
/// agent ended it.
pub proof fn law_cancelled_turn(result: Result<(), Seq<char>>)
    ensures
        turn_refusal(true, result) == Some(
            StatusView { code: Code::Cancelled, message: "turn cancelled"@ },
        ),
        turn_error(true, result) == "cancelled"@,
{
}

/// The request of a turn succeeds just when the agent succeeded and nobody
/// cancelled it; the error that subscribers are told is then empty. If the
/// agent failed, the client and the subscribers are told the same.
pub proof fn law_turn_answer(cancelled: bool, result: Result<(), Seq<char>>)
    ensures
        turn_refusal(cancelled, result) is None <==> !cancelled && result is Ok,
        turn_refusal(cancelled, result) is None ==> turn_error(cancelled, result).len() == 0,
        !cancelled && result is Err ==> turn_refusal(cancelled, result)->0.message == turn_error(
            cancelled,
            result,
        ) && turn_error(cancelled, result) == result->Err_0,
{
}

/// A stream that has ended stays so, and gives nothing more.
proof fn lemma_ended_stream(progress: Progress, looks: Seq<Look>, later: Seq<Look>)
    requires
        progress_after(progress, looks) is Ended,
    ensures
        progress_after(progress, looks + later) is Ended,
        stream(progress, looks + later) == stream(progress, looks),
    decreases later.len(),
{
    if later.len() == 0 {
        assert(looks + later =~= looks);
    } else {
        assert((looks + later).drop_last() =~= looks + later.drop_last());
        lemma_ended_stream(progress, looks, later.drop_last());
    }
}

/// A stream gives an error at most once, and nothing after it.
pub proof fn law_error_ends_the_stream(progress: Progress, looks: Seq<Look>, i: int)
    requires
        0 <= i < stream(progress, looks).len(),
        stream(progress, looks)[i] is Err,
    ensures
        i == stream(progress, looks).len() - 1,
        progress_after(progress, looks) is Ended,
    decreases looks.len(),
{
    let earlier = looks.drop_last();
    if i < stream(progress, earlier).len() {
        law_error_ends_the_stream(progress, earlier, i);
    }
}

/// A notice that is ready is served before any event, however many wait: it is
/// what the stream gives next, and it ends the stream.
pub proof fn law_ready_notice_is_served_first(
    notices: Seq<StatusView>,
    notices_closed: bool,
    events: Seq<EventView>,
    events_closed: bool,
)
    requires
        notices.len() > 0,
    ensures
        ({
            let look = Look {
                notice: front(notices, notices_closed),
                event: front(events, events_closed),
            };
            &&& Progress::Watching.serve(look).item == Some(Err::<EventView, _>(notices[0]))
            &&& Progress::Watching.serve(look).progress is Ended
        }),
{
}

/// A notice breaks the stream off: what the stream gave before it stands, then
/// comes the status of the notice, then nothing, whatever event is ready at the
/// same look and whatever is found at later ones.
pub proof fn law_notice_breaks_the_stream_off(
    before: Seq<Look>,
    notice: StatusView,
    event: Option<Option<EventView>>,
    later: Seq<Look>,
)
    requires
        progress_after(Progress::Watching, before) is Watching,
    ensures
        stream(
            Progress::Watching,
            before.push(Look { notice: Some(Some(notice)), event }) + later,
        ) == stream(Progress::Watching, before).push(Err(notice)),
        progress_after(
            Progress::Watching,
            before.push(Look { notice: Some(Some(notice)), event }) + later,
        ) is Ended,
{
    let look = Look { notice: Some(Some(notice)), event };
    assert(before.push(look).drop_last() =~= before);
    lemma_ended_stream(Progress::Watching, before.push(look), later);
}

/// A notice is ready at this look.
pub open spec fn finds_notice(look: Look) -> bool {
    look.notice is Some && look.notice->0 is Some
}

/// The events that are found at these looks, in order.
pub open spec fn found(looks: Seq<Look>) -> Seq<EventView>
    decreases looks.len(),
{
    if looks.len() == 0 {
        Seq::empty()
    } else {
        match looks.last().event {
            Some(Some(event)) => found(looks.drop_last()).push(event),
            _ => found(looks.drop_last()),
        }
    }
}

/// A stream that finds no notice gives every event that it finds, in order, and
/// no error. It ends with the end of the events, and not before.
pub proof fn law_stream_without_notice_is_clean(looks: Seq<Look>)
    requires
        forall|i: int| 0 <= i < looks.len() ==> !finds_notice(#[trigger] looks[i]),
        forall|i: int| 0 <= i < looks.len() - 1 ==> (#[trigger] looks[i]).event != Some(
            None::<EventView>,
        ),
    ensures
        stream(Progress::Watching, looks) == found(looks).map_values(
            |event: EventView| Ok::<EventView, StatusView>(event),
        ),
        progress_after(Progress::Watching, looks) is Ended <==> looks.len() > 0
            && looks.last().event == Some(None::<EventView>),
    decreases looks.len(),
{
    let given = found(looks).map_values(|event: EventView| Ok::<EventView, StatusView>(event));
    if looks.len() > 0 {
        let earlier = looks.drop_last();
        assert forall|i: int| 0 <= i < earlier.len() implies !finds_notice(
            #[trigger] earlier[i],
        ) by {
            assert(earlier[i] == looks[i]);
        }
        assert forall|i: int| 0 <= i < earlier.len() implies (#[trigger] earlier[i]).event != Some(
            None::<EventView>,
        ) by {
            assert(earlier[i] == looks[i]);
        }
        law_stream_without_notice_is_clean(earlier);
        assert(looks.last() == looks[looks.len() - 1]);
    }
    assert(stream(Progress::Watching, looks) =~= given);
}

/// What a stream finds that looks again and again at a closed queue, in which
/// these events wait, and takes out what it finds; `notices` is what it finds at
/// the other end each time.
pub open spec fn looks_at(
    events: Seq<EventView>,
    notices: Seq<Option<Option<StatusView>>>,
) -> Seq<Look> {
    Seq::new(
        events.len() + 1,
        |k: int| Look { notice: notices[k], event: front(events.skip(k), true) },
    )
}

/// A stream that reads a closed queue, and finds no notice, gives what is in the
/// queue, in order, and ends.
pub proof fn law_stream_gives_the_closed_queue(
    events: Seq<EventView>,
    notices: Seq<Option<Option<StatusView>>>,
)
    requires
        notices.len() == events.len() + 1,
        forall|k: int|
            0 <= k < notices.len() ==> !(#[trigger] notices[k] is Some && notices[k]->0 is Some),
    ensures
        stream(Progress::Watching, looks_at(events, notices)) == events.map_values(
            |event: EventView| Ok::<EventView, StatusView>(event),
        ),
        progress_after(Progress::Watching, looks_at(events, notices)) is Ended,
{
    let looks = looks_at(events, notices);
    assert forall|i: int| 0 <= i < looks.len() implies !finds_notice(#[trigger] looks[i]) by {
        assert(looks[i].notice == notices[i]);
    }
    assert forall|i: int| 0 <= i < looks.len() - 1 implies (#[trigger] looks[i]).event != Some(
        None::<EventView>,
    ) by {
        assert(events.skip(i).len() > 0);
    }
    lemma_found_in_queue(events, notices, events.len());
    assert(looks.take(events.len() as int) =~= looks.drop_last());
    assert(events.take(events.len() as int) =~= events);
    assert(events.skip(events.len() as int).len() == 0);
    law_stream_without_notice_is_clean(looks);
}

proof fn lemma_found_in_queue(
    events: Seq<EventView>,
    notices: Seq<Option<Option<StatusView>>>,
    n: nat,
)
    requires
        n <= events.len(),
    ensures
        found(looks_at(events, notices).take(n as int)) == events.take(n as int),
    decreases n,
{
    let looks = looks_at(events, notices).take(n as int);
    if n > 0 {
        lemma_found_in_queue(events, notices, (n - 1) as nat);
        assert(looks.drop_last() =~= looks_at(events, notices).take(n - 1));
        assert(events.skip(n - 1)[0] == events[n - 1]);
        assert(events.take(n as int) =~= events.take(n - 1).push(events[n - 1]));
    } else {
        assert(events.take(0) =~= Seq::<EventView>::empty());
    }
}

} // verus!
