//! The requests that the server answers, as far as it reads them, and its
//! replies.

use vstd::prelude::*;

verus! {

/// Asks for an agent on a conversation.
#[derive(Debug)]
pub struct CreateAgentRequest {
    pub conversation_id: String,
    /// The model to use; empty for the configured one.
    pub model: String,
    /// The version of the encoding that the client speaks.
    pub payload_version: String,
}

/// Names the agent, and the version of the encoding that the server speaks.
#[derive(Debug, PartialEq, Eq)]
pub struct CreateAgentResponse {
    pub agent_id: String,
    pub payload_version: String,
}

/// Asks that an agent be taken down.
#[derive(Debug)]
pub struct DestroyAgentRequest {
    pub agent_id: String,
}

/// The agent is not there, or not any more.
#[derive(Debug, PartialEq, Eq)]
pub struct DestroyAgentResponse {}

/// Asks an agent to take a turn. `E` is what a message is encoded in, `L` what
/// the agent is limited by.
#[derive(Debug)]
pub struct SendTurnRequest<E, L> {
    pub agent_id: String,
    /// The message of the turn, which the agent does not understand yet.
    pub message_json: E,
    /// The name under which the client follows the turn.
    pub turn_id: String,
    /// How much the agent may say.
    pub max_tokens: L,
}

/// The turn went well.
#[derive(Debug, PartialEq, Eq)]
pub struct SendTurnResponse {}

/// Asks that the turn of an agent be cancelled.
#[derive(Debug)]
pub struct CancelTurnRequest {
    pub agent_id: String,
}

/// The turn, if there is one, is told to stop.
#[derive(Debug, PartialEq, Eq)]
pub struct CancelTurnResponse {}

/// Asks that an agent change over to a conversation.
#[derive(Debug)]
pub struct LoadConversationRequest {
    pub agent_id: String,
    pub conversation_id: String,
}

/// The agent has changed over.
#[derive(Debug, PartialEq, Eq)]
pub struct LoadConversationResponse {}

/// Asks which conversation an agent is on.
#[derive(Debug)]
pub struct GetConversationRequest {
    pub agent_id: String,
}

/// The conversation that the agent is on.
#[derive(Debug, PartialEq, Eq)]
pub struct GetConversationResponse {
    pub conversation_id: String,
}

/// Asks for the events of an agent.
#[derive(Debug)]
pub struct SubscribeRequest {
    pub agent_id: String,
}

} // verus!
