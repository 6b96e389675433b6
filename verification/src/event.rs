//! What subscribers of an agent are told.

use vstd::prelude::*;

verus! {

/// The messages of a conversation, as far as they could be had.
#[derive(Debug, PartialEq, Eq)]
pub enum Memory {
    /// The messages, encoded.
    Encoded(String),
    /// The messages were read and could not be encoded; the text says why.
    Unencodable(String),
    /// The messages could not be read; the text says why.
    Failed(String),
}

/// A [`Memory`] with its text as characters.
pub enum MemoryView {
    Encoded(Seq<char>),
    Unencodable(Seq<char>),
    Failed(Seq<char>),
}

impl View for Memory {
    type V = MemoryView;

    open spec fn view(&self) -> MemoryView {
        match self {
            Memory::Encoded(text) => MemoryView::Encoded(text@),
            Memory::Unencodable(text) => MemoryView::Unencodable(text@),
            Memory::Failed(text) => MemoryView::Failed(text@),
        }
    }
}

/// What happened to an agent. Messages are carried in their encoded form.
#[derive(Debug, PartialEq, Eq)]
pub enum EventKind {
    /// The agent is on this conversation, with these messages, or with the
    /// reason why they are not known.
    SwitchConversation { conversation_id: String, messages: Result<String, String> },
    /// A message was opened.
    NewMessage { index: usize, message: String, turn_id: String },
    /// A message that was opened before has grown.
    UpdateMessage { index: usize, update: String, turn_id: String },
    /// A turn is over; the error is empty if it went well.
    TurnCompleted { turn_id: String, error: String },
    /// The agent is gone.
    AgentDestroyed { reason: String },
}

/// An [`EventKind`] with its text as characters.
pub enum EventKindView {
    SwitchConversation { conversation_id: Seq<char>, messages: Result<Seq<char>, Seq<char>> },
    NewMessage { index: usize, message: Seq<char>, turn_id: Seq<char> },
    UpdateMessage { index: usize, update: Seq<char>, turn_id: Seq<char> },
    TurnCompleted { turn_id: Seq<char>, error: Seq<char> },
    AgentDestroyed { reason: Seq<char> },
}

impl View for EventKind {
    type V = EventKindView;

    open spec fn view(&self) -> EventKindView {
        match self {
            EventKind::SwitchConversation { conversation_id, messages } => {
                EventKindView::SwitchConversation {
                    conversation_id: conversation_id@,
                    messages: match messages {
                        Ok(text) => Ok(text@),
                        Err(error) => Err(error@),
                    },
                }
            },
            EventKind::NewMessage { index, message, turn_id } => {
                EventKindView::NewMessage { index: *index, message: message@, turn_id: turn_id@ }
            },
            EventKind::UpdateMessage { index, update, turn_id } => {
                EventKindView::UpdateMessage { index: *index, update: update@, turn_id: turn_id@ }
            },
            EventKind::TurnCompleted { turn_id, error } => {
                EventKindView::TurnCompleted { turn_id: turn_id@, error: error@ }
            },
            EventKind::AgentDestroyed { reason } => {
                EventKindView::AgentDestroyed { reason: reason@ }
            },
        }
    }
}

impl Clone for EventKind {
    fn clone(&self) -> (copy: Self)
        ensures
            copy@ == self@,
    {
        match self {
            EventKind::SwitchConversation { conversation_id, messages } => {
                let messages = match messages {
                    Ok(text) => Ok(text.clone()),
                    Err(error) => Err(error.clone()),
                };
                EventKind::SwitchConversation {
                    conversation_id: conversation_id.clone(),
                    messages,
                }
            },
            EventKind::NewMessage { index, message, turn_id } => EventKind::NewMessage {
                index: *index,
                message: message.clone(),
                turn_id: turn_id.clone(),
            },
            EventKind::UpdateMessage { index, update, turn_id } => EventKind::UpdateMessage {
                index: *index,
                update: update.clone(),
                turn_id: turn_id.clone(),
            },
            EventKind::TurnCompleted { turn_id, error } => EventKind::TurnCompleted {
                turn_id: turn_id.clone(),
                error: error.clone(),
            },
            EventKind::AgentDestroyed { reason } => EventKind::AgentDestroyed {
                reason: reason.clone(),
            },
        }
    }
}

/// An event of the agent `agent_id`.
#[derive(Debug, PartialEq, Eq)]
pub struct AgentEvent {
    pub agent_id: String,
    pub kind: EventKind,
}

/// An [`AgentEvent`] with its text as characters.
pub struct EventView {
    pub agent_id: Seq<char>,
    pub kind: EventKindView,
}

impl EventView {
    /// A subscriber that is behind may miss this event.
    pub open spec fn droppable(self) -> bool {
        self.kind is UpdateMessage
    }
}

impl View for AgentEvent {
    type V = EventView;

    open spec fn view(&self) -> EventView {
        EventView { agent_id: self.agent_id@, kind: self.kind@ }
    }
}

impl Clone for AgentEvent {
    fn clone(&self) -> (copy: Self)
        ensures
            copy@ == self@,
    {
        AgentEvent { agent_id: self.agent_id.clone(), kind: self.kind.clone() }
    }
}

/// The event that tells which conversation an agent is on, or the reason why
/// there is none: messages that cannot be encoded have no event.
pub open spec fn switch_event(
    agent_id: Seq<char>,
    conversation_id: Seq<char>,
    memory: MemoryView,
) -> Result<EventView, Seq<char>> {
    match memory {
        MemoryView::Encoded(text) => Ok(
            EventView {
                agent_id,
                kind: EventKindView::SwitchConversation { conversation_id, messages: Ok(text) },
            },
        ),
        MemoryView::Failed(error) => Ok(
            EventView {
                agent_id,
                kind: EventKindView::SwitchConversation { conversation_id, messages: Err(error) },
            },
        ),
        MemoryView::Unencodable(error) => Err(error),
    }
}

/// The event that a turn is over.
pub open spec fn turn_completed_event(
    agent_id: Seq<char>,
    turn_id: Seq<char>,
    error: Seq<char>,
) -> EventView {
    EventView { agent_id, kind: EventKindView::TurnCompleted { turn_id, error } }
}

/// The event that an agent is gone.
pub open spec fn agent_destroyed_event(agent_id: Seq<char>, reason: Seq<char>) -> EventView {
    EventView { agent_id, kind: EventKindView::AgentDestroyed { reason } }
}

impl AgentEvent {
    /// Whether a subscriber that is behind may miss this event.
    pub fn droppable(&self) -> (droppable: bool)
        ensures
            droppable == self@.droppable(),
    {
        match &self.kind {
            EventKind::UpdateMessage { .. } => true,
            _ => false,
        }
    }

    /// The agent is on `conversation_id` with the messages in `memory`.
    pub fn switch_conversation(
        agent_id: String,
        conversation_id: String,
        memory: Memory,
    ) -> (event: Result<AgentEvent, String>)
        ensures
            match switch_event(agent_id@, conversation_id@, memory@) {
                Ok(view) => event is Ok && event->Ok_0@ == view,
                Err(error) => event is Err && event->Err_0@ == error,
            },
    {
        match memory {
            Memory::Encoded(text) => Ok(
                AgentEvent {
                    agent_id,
                    kind: EventKind::SwitchConversation { conversation_id, messages: Ok(text) },
                },
            ),
            Memory::Failed(error) => Ok(
                AgentEvent {
                    agent_id,
                    kind: EventKind::SwitchConversation { conversation_id, messages: Err(error) },
                },
            ),
            Memory::Unencodable(error) => Err(error),
        }
    }

    /// The turn `turn_id` is over.
    pub fn turn_completed(agent_id: String, turn_id: String, error: String) -> (event: AgentEvent)
        ensures
            event@ == turn_completed_event(agent_id@, turn_id@, error@),
    {
        AgentEvent { agent_id, kind: EventKind::TurnCompleted { turn_id, error } }
    }

    /// The agent is gone.
    pub fn agent_destroyed(agent_id: String, reason: &str) -> (event: AgentEvent)
        ensures
            event@ == agent_destroyed_event(agent_id@, reason@),
    {
        AgentEvent { agent_id, kind: EventKind::AgentDestroyed { reason: reason.to_owned() } }
    }
}

} // verus!
