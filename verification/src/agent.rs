//! The state of one agent that its handlers and its subscribers share.

use tokio_util::sync::CancellationToken;
use vstd::prelude::*;

use crate::cancel::{cancel, token_view, TokenMint, TokenView};
use crate::event::{
    agent_destroyed_event, switch_event, AgentEvent, EventKind, EventKindView, EventView, Memory,
};
use crate::fanout::{broadcast_done, views, Broadcast, Fanout, Subscriber, SubscriberView};
use crate::lock::LockLog;
use crate::request::{CancelTurnResponse, GetConversationResponse};

verus! {

/// The state of one agent.
pub struct AgentState {
    pub agent_id: String,
    /// The conversation that the agent is on.
    pub conversation_id: String,
    pub fanout: Fanout,
    /// The latest turn, which may be over.
    pub turn_id: Option<String>,
    /// What tells the latest turn to stop.
    pub cancel: CancellationToken,
    /// What came of the attempts to begin a turn.
    pub attempts: LockLog,
}

/// An [`AgentState`] with its text as characters and its subscribers by view.
pub struct AgentStateView {
    pub agent_id: Seq<char>,
    pub conversation_id: Seq<char>,
    pub subscribers: Seq<SubscriberView>,
    pub turn_id: Option<Seq<char>>,
    pub cancel: TokenView,
    /// For each attempt to begin a turn, whether the agent's lock was free.
    pub attempts: Seq<bool>,
}

impl View for AgentState {
    type V = AgentStateView;

    open spec fn view(&self) -> AgentStateView {
        AgentStateView {
            agent_id: self.agent_id@,
            conversation_id: self.conversation_id@,
            subscribers: self.fanout@,
            turn_id: match self.turn_id {
                Some(turn_id) => Some(turn_id@),
                None => None,
            },
            cancel: token_view(self.cancel),
            attempts: self.attempts@,
        }
    }
}

impl AgentStateView {
    /// The turn that a message belongs to: none has the empty name.
    pub open spec fn current_turn(self) -> Seq<char> {
        match self.turn_id {
            Some(turn_id) => turn_id,
            None => Seq::empty(),
        }
    }

    /// A new agent of that name on that conversation: no subscribers, no turn.
    pub open spec fn fresh(self, agent_id: Seq<char>, conversation_id: Seq<char>) -> bool {
        &&& self.agent_id == agent_id
        &&& self.conversation_id == conversation_id
        &&& self.subscribers == Seq::<SubscriberView>::empty()
        &&& self.turn_id is None
        &&& self.cancel == TokenView::unused(self.cancel.number)
        &&& self.attempts == Seq::<bool>::empty()
    }

    /// The same agent, after one more attempt to take its lock.
    pub open spec fn tried(self, got: bool) -> Self {
        AgentStateView { attempts: self.attempts.push(got), ..self }
    }

    /// The same agent, whose latest turn is told to stop.
    pub open spec fn asked_to_stop(self) -> Self {
        AgentStateView { cancel: self.cancel.used_to_cancel(), ..self }
    }

    /// The same agent after it is taken down: nobody subscribes to it, and its
    /// latest turn is told to stop.
    pub open spec fn taken_down(self) -> Self {
        AgentStateView { subscribers: Seq::empty(), ..self.asked_to_stop() }
    }

    /// The same agent on another conversation.
    pub open spec fn on_conversation(self, conversation_id: Seq<char>) -> Self {
        AgentStateView { conversation_id, ..self }
    }

    /// The same agent with one more subscriber.
    pub open spec fn with_subscriber(self, subscriber: SubscriberView) -> Self {
        AgentStateView { subscribers: self.subscribers.push(subscriber), ..self }
    }

    /// The event that a message was opened.
    pub open spec fn new_message_event(self, index: usize, message: Seq<char>) -> EventView {
        EventView {
            agent_id: self.agent_id,
            kind: EventKindView::NewMessage { index, message, turn_id: self.current_turn() },
        }
    }

    /// The event that a message has grown.
    pub open spec fn update_message_event(self, index: usize, update: Seq<char>) -> EventView {
        EventView {
            agent_id: self.agent_id,
            kind: EventKindView::UpdateMessage { index, update, turn_id: self.current_turn() },
        }
    }
}

/// `event` was broadcast to the subscribers of `before`, and nothing else
/// changed.
pub open spec fn published(
    before: AgentStateView,
    event: EventView,
    after: AgentStateView,
    report: Broadcast,
) -> bool {
    &&& broadcast_done(before.subscribers, event, after.subscribers, report)
    &&& after == AgentStateView { subscribers: after.subscribers, ..before }
}

/// What is left of an agent's subscriptions when it is taken down.
#[derive(Debug)]
pub struct Farewell {
    /// What became of the event that the agent is gone.
    pub report: Broadcast,
    /// The subscribers that were there until the end.
    pub closed: Vec<Subscriber>,
}

impl AgentState {
    /// A new agent on a conversation: no subscribers, no turn. Its token is
    /// above all that the mint has made.
    pub fn new(agent_id: String, conversation_id: String, mint: &mut TokenMint) -> (state:
        AgentState)
        ensures
            state@.fresh(agent_id@, conversation_id@),
            state@.cancel.number == final(mint).number(),
            final(mint).number() > old(mint).number(),
            final(mint).names == old(mint).names,
    {
        AgentState {
            agent_id,
            conversation_id,
            fanout: Fanout::default(),
            turn_id: None,
            cancel: mint.make(None).0,
            attempts: LockLog::new(),
        }
    }

    /// Tells the subscribers of `event`.
    pub fn publish(&mut self, event: AgentEvent) -> (report: Broadcast)
        ensures
            published(old(self)@, event@, final(self)@, report),
    {
        self.fanout.broadcast(event)
    }

    /// The turn that a message belongs to; empty if there was none yet.
    pub fn current_turn(&self) -> (turn_id: String)
        ensures
            turn_id@ == self@.current_turn(),
    {
        match &self.turn_id {
            Some(turn_id) => turn_id.clone(),
            None => String::new(),
        }
    }

    /// The agent has changed over to a conversation. Messages that cannot be
    /// encoded are the agent's error, and nobody is told.
    pub fn on_switch_conversation(
        &mut self,
        conversation_id: String,
        memory: Memory,
    ) -> (told: Result<Broadcast, String>)
        ensures
            match switch_event(old(self)@.agent_id, conversation_id@, memory@) {
                Ok(event) => told is Ok && published(old(self)@, event, final(self)@, told->Ok_0),
                Err(error) => told is Err && told->Err_0@ == error && final(self)@ == old(self)@,
            },
    {
        match AgentEvent::switch_conversation(self.agent_id.clone(), conversation_id, memory) {
            Ok(event) => Ok(self.publish(event)),
            Err(error) => Err(error),
        }
    }

    /// The agent has opened a message. One that cannot be encoded is the
    /// agent's error, and nobody is told.
    pub fn on_new_message(
        &mut self,
        index: usize,
        message: Result<String, String>,
    ) -> (told: Result<Broadcast, String>)
        ensures
            match message {
                Ok(message) => told is Ok && published(
                    old(self)@,
                    old(self)@.new_message_event(index, message@),
                    final(self)@,
                    told->Ok_0,
                ),
                Err(error) => told is Err && told->Err_0@ == error@ && final(self)@ == old(self)@,
            },
    {
        let turn_id = self.current_turn();
        match message {
            Ok(message) => {
                let event = AgentEvent {
                    agent_id: self.agent_id.clone(),
                    kind: EventKind::NewMessage { index, message, turn_id },
                };
                Ok(self.publish(event))
            },
            Err(error) => Err(error),
        }
    }

    /// A message of the agent has grown. An update that cannot be encoded is
    /// the agent's error, and nobody is told.
    pub fn on_update_message(
        &mut self,
        index: usize,
        update: Result<String, String>,
    ) -> (told: Result<Broadcast, String>)
        ensures
            match update {
                Ok(update) => told is Ok && published(
                    old(self)@,
                    old(self)@.update_message_event(index, update@),
                    final(self)@,
                    told->Ok_0,
                ),
                Err(error) => told is Err && told->Err_0@ == error@ && final(self)@ == old(self)@,
            },
    {
        let turn_id = self.current_turn();
        match update {
            Ok(update) => {
                let event = AgentEvent {
                    agent_id: self.agent_id.clone(),
                    kind: EventKind::UpdateMessage { index, update, turn_id },
                };
                Ok(self.publish(event))
            },
            Err(error) => Err(error),
        }
    }

    /// The conversation that the agent is on.
    pub fn get_conversation(&self) -> (response: GetConversationResponse)
        ensures
            response.conversation_id@ == self@.conversation_id,
    {
        GetConversationResponse { conversation_id: self.conversation_id.clone() }
    }

    /// Tells the latest turn to stop.
    pub fn cancel_turn(&mut self) -> (response: CancelTurnResponse)
        ensures
            final(self)@ == old(self)@.asked_to_stop(),
    {
        cancel(&mut self.cancel);
        CancelTurnResponse {  }
    }

    /// Takes the agent down: the subscribers are told, their subscriptions
    /// end, and a turn that is under way is told to stop, so that its request
    /// is answered.
    pub fn destroy(&mut self) -> (farewell: Farewell)
        ensures
            broadcast_done(
                old(self)@.subscribers,
                agent_destroyed_event(old(self)@.agent_id, "agent destroyed"@),
                views(farewell.closed@),
                farewell.report,
            ),
            final(self)@ == old(self)@.taken_down(),
    {
        let event = AgentEvent::agent_destroyed(self.agent_id.clone(), "agent destroyed");
        let report = self.publish(event);
        let closed = self.fanout.close_all();
        cancel(&mut self.cancel);
        Farewell { report, closed }
    }
}

} // verus!
