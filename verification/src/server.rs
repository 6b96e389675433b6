//! The server: every request of a client begins here.

use vstd::prelude::*;
use vstd::string::StringExecFns;

use crate::agent::{AgentState, Farewell};
use crate::cancel::TokenMint;
use crate::event::agent_destroyed_event;
use crate::fanout::{broadcast_done, views};
use crate::ids::{is_random_uuid, random_agent_id};
use crate::registry::{Registry, RegistryView};
use crate::request::{
    CancelTurnRequest, CreateAgentRequest, CreateAgentResponse, DestroyAgentRequest,
    DestroyAgentResponse, GetConversationRequest, LoadConversationRequest,
    LoadConversationResponse, SendTurnRequest, SubscribeRequest,
};
use crate::status::{Code, Status, StatusView};
use crate::turn::FoundTurn;

verus! {

/// The agents that clients work with. `A` is whatever the caller reaches an
/// agent by.
#[verifier::reject_recursive_types(A)]
pub struct AgentServer<A> {
    /// The version of the encoding that the server speaks.
    pub payload_version: String,
    pub registry: Registry<A>,
    /// Where the tokens of all agents come from.
    pub mint: TokenMint,
}

/// The refusal of a client that speaks another encoding.
pub open spec fn version_mismatch(expected: Seq<char>, got: Seq<char>) -> StatusView {
    StatusView {
        code: Code::FailedPrecondition,
        message: "payload version mismatch: expected "@ + expected + ", got "@ + got,
    }
}

/// The refusal of a request that names an agent that is not there.
pub open spec fn agent_not_found() -> StatusView {
    StatusView { code: Code::NotFound, message: "agent not found"@ }
}

/// The refusal of a change to a conversation that another agent is on.
pub open spec fn owned_by_another() -> StatusView {
    StatusView {
        code: Code::FailedPrecondition,
        message: "conversation is owned by another agent"@,
    }
}

/// The refusal of a request in which the agent itself failed.
pub open spec fn agent_failed(error: Seq<char>) -> StatusView {
    StatusView { code: Code::Internal, message: error }
}

/// How a request for an agent goes on.
#[derive(Debug)]
pub enum CreateStep {
    /// The conversation has an agent.
    Attach(CreateAgentResponse),
    /// An agent is to be built.
    Build(PendingAgent),
}

/// An agent that is to be built.
#[derive(Debug)]
pub struct PendingAgent {
    pub conversation_id: String,
    /// The model that the client asked for; empty for the configured one.
    pub model: String,
}

/// An agent that is built and not known to the server yet.
#[derive(Debug)]
pub struct NewAgent {
    pub agent_id: String,
    pub conversation_id: String,
}

/// How a request to take an agent down goes on.
#[derive(Debug)]
pub enum DestroyStep<A> {
    /// There is nothing to take down.
    Absent(DestroyAgentResponse),
    /// This agent is out of the server and is to be taken down.
    Removed(A),
}

/// A change of conversation that nothing stands against.
#[derive(Debug)]
pub struct PendingLoad {
    pub agent_id: String,
    pub conversation_id: String,
}

/// A change of conversation that the agent has made.
#[derive(Debug)]
pub struct LoadedConversation {
    pub agent_id: String,
    pub conversation_id: String,
    /// The conversation that the agent was on before.
    pub previous: String,
}

/// The model for an agent: the one that the client asked for, or else the
/// configured one.
pub fn chosen_model(configured: String, requested: String) -> (model: String)
    ensures
        model@ == if requested@.len() == 0 {
            configured@
        } else {
            requested@
        },
{
    if requested.as_str().is_empty() {
        configured
    } else {
        requested
    }
}

impl PendingAgent {
    /// Names the agent once there is what it is built from; the text of an
    /// error says why there is not. The name is drawn for this agent.
    pub fn built<P>(self, params: Result<P, String>, mint: &mut TokenMint) -> (agent: Result<
        (P, NewAgent, AgentState),
        Status,
    >)
        ensures
            match params {
                Ok(params) => {
                    &&& agent matches Ok((same, new, state))
                    &&& same == params
                    &&& is_random_uuid(new.agent_id@)
                    &&& named_agent(new.agent_id@, self.conversation_id@, (new, state))
                    &&& state@.cancel.number == final(mint).number()
                    &&& final(mint).number() > old(mint).number()
                    &&& final(mint).names@ == old(mint).names@.push(new.agent_id@)
                },
                Err(error) => {
                    &&& agent is Err
                    &&& agent->Err_0@ == agent_failed(error@)
                    &&& *final(mint) == *old(mint)
                },
            },
    {
        match params {
            Ok(params) => {
                let agent_id = random_agent_id(&mut mint.names);
                let (new, state) = self.named(agent_id, mint);
                Ok((params, new, state))
            },
            Err(error) => Err(Status::internal(error.as_str())),
        }
    }

    /// Gives the agent a name, and a state to begin with. Its token is above all
    /// that the mint has made.
    pub fn named(self, agent_id: String, mint: &mut TokenMint) -> (agent: (NewAgent, AgentState))
        ensures
            named_agent(agent_id@, self.conversation_id@, agent),
            agent.1@.cancel.number == final(mint).number(),
            final(mint).number() > old(mint).number(),
            final(mint).names == old(mint).names,
    {
        let state = AgentState::new(agent_id.clone(), self.conversation_id.clone(), mint);
        (NewAgent { agent_id, conversation_id: self.conversation_id }, state)
    }
}

/// A new agent of that name on that conversation.
pub open spec fn named_agent(
    agent_id: Seq<char>,
    conversation_id: Seq<char>,
    agent: (NewAgent, AgentState),
) -> bool {
    &&& agent.0.agent_id@ == agent_id
    &&& agent.0.conversation_id@ == conversation_id
    &&& agent.1@.fresh(agent_id, conversation_id)
}

impl PendingLoad {
    /// Puts the agent on the conversation once it has loaded it; the text of
    /// an error says why it has not.
    pub fn loaded(self, state: &mut AgentState, result: Result<(), String>) -> (loaded: Result<
        LoadedConversation,
        Status,
    >)
        ensures
            match result {
                Ok(()) => {
                    &&& loaded is Ok
                    &&& loaded->Ok_0.agent_id == self.agent_id
                    &&& loaded->Ok_0.conversation_id == self.conversation_id
                    &&& loaded->Ok_0.previous@ == old(state)@.conversation_id
                    &&& final(state)@ == old(state)@.on_conversation(self.conversation_id@)
                },
                Err(error) => {
                    &&& loaded is Err
                    &&& loaded->Err_0@ == agent_failed(error@)
                    &&& *final(state) == *old(state)
                },
            },
    {
        match result {
            Ok(()) => {
                let previous = state.conversation_id.clone();
                state.conversation_id = self.conversation_id.clone();
                Ok(
                    LoadedConversation {
                        agent_id: self.agent_id,
                        conversation_id: self.conversation_id,
                        previous,
                    },
                )
            },
            Err(error) => Err(Status::internal(error.as_str())),
        }
    }
}

impl<A> AgentServer<A> {
    /// A server without agents.
    pub fn new(payload_version: String) -> (server: AgentServer<A>)
        ensures
            server.payload_version == payload_version,
            server.registry@ == RegistryView::<A>::empty(),
            server.mint.number() == 0,
            server.mint.names@ == Seq::<Seq<char>>::empty(),
    {
        AgentServer { payload_version, registry: Registry::default(), mint: TokenMint::new() }
    }

    fn find(&self, agent_id: &str) -> (agent: Result<&A, Status>)
        ensures
            self.finds(agent_id@, agent),
    {
        match self.registry.agent(agent_id) {
            Some(agent) => Ok(agent),
            None => Err(Status::not_found("agent not found")),
        }
    }

    /// The agent of that name, or else the refusal that it is not there.
    pub open spec fn finds(&self, agent_id: Seq<char>, agent: Result<&A, Status>) -> bool {
        if self.registry@.agents.contains_key(agent_id) {
            agent is Ok && *agent->Ok_0 == self.registry@.agents[agent_id]
        } else {
            agent is Err && agent->Err_0@ == agent_not_found()
        }
    }

    /// A client asks for an agent on a conversation. One that speaks another
    /// encoding is refused; a conversation that has an agent keeps it.
    pub fn create_agent(&self, request: CreateAgentRequest) -> (step: Result<CreateStep, Status>)
        ensures
            if request.payload_version@ != self.payload_version@ {
                step is Err && step->Err_0@ == version_mismatch(
                    self.payload_version@,
                    request.payload_version@,
                )
            } else {
                match self.registry@.attached(request.conversation_id@) {
                    Some(agent_id) => {
                        &&& step matches Ok(CreateStep::Attach(response))
                        &&& response.agent_id@ == agent_id
                        &&& response.payload_version@ == self.payload_version@
                    },
                    None => {
                        &&& step matches Ok(CreateStep::Build(pending))
                        &&& pending.conversation_id == request.conversation_id
                        &&& pending.model == request.model
                    },
                }
            },
    {
        if request.payload_version != self.payload_version {
            let mut message = "payload version mismatch: expected ".to_owned();
            message.append(self.payload_version.as_str());
            message.append(", got ");
            message.append(request.payload_version.as_str());
            return Err(Status::failed_precondition(message.as_str()));
        }
        match self.registry.attached(request.conversation_id.as_str()) {
            Some(agent_id) => Ok(
                CreateStep::Attach(
                    CreateAgentResponse {
                        agent_id,
                        payload_version: self.payload_version.clone(),
                    },
                ),
            ),
            None => Ok(
                CreateStep::Build(
                    PendingAgent { conversation_id: request.conversation_id, model: request.model },
                ),
            ),
        }
    }

    /// Takes a new agent in. Its conversation belongs to it.
    pub fn finish_create(&mut self, agent: NewAgent, handle: A) -> (response: CreateAgentResponse)
        ensures
            final(self).payload_version == old(self).payload_version,
            final(self).mint == old(self).mint,
            final(self).registry@ == old(self).registry@.registered(
                agent.agent_id@,
                agent.conversation_id@,
                handle,
            ),
            response.agent_id@ == agent.agent_id@,
            response.payload_version@ == old(self).payload_version@,
    {
        self.registry.register(agent.agent_id.clone(), agent.conversation_id, handle);
        CreateAgentResponse {
            agent_id: agent.agent_id,
            payload_version: self.payload_version.clone(),
        }
    }

    /// A client asks that an agent be taken down. From here on no request
    /// reaches it.
    pub fn destroy_agent(&mut self, request: DestroyAgentRequest) -> (step: DestroyStep<A>) where
        A: Clone,

        ensures
            final(self).payload_version == old(self).payload_version,
            final(self).mint == old(self).mint,
            final(self).registry@ == old(self).registry@.without_agent(request.agent_id@),
            match step {
                DestroyStep::Absent(_) => !old(self).registry@.agents.contains_key(
                    request.agent_id@,
                ),
                DestroyStep::Removed(agent) => {
                    &&& old(self).registry@.agents.contains_key(request.agent_id@)
                    &&& cloned(old(self).registry@.agents[request.agent_id@], agent)
                },
            },
    {
        match self.registry.remove_agent(request.agent_id.as_str()) {
            Some(agent) => DestroyStep::Removed(agent),
            None => DestroyStep::Absent(DestroyAgentResponse {  }),
        }
    }

    /// Takes down an agent that is out of the server: the conversation that it
    /// was on belongs to nobody, its subscribers are told, their subscriptions
    /// end, and a turn that is under way is told to stop.
    pub fn finish_destroy(&mut self, state: &mut AgentState) -> (done: (
        DestroyAgentResponse,
        Farewell,
    ))
        ensures
            final(self).payload_version == old(self).payload_version,
            final(self).mint == old(self).mint,
            final(self).registry@ == old(self).registry@.disowned(old(state)@.conversation_id),
            broadcast_done(
                old(state)@.subscribers,
                agent_destroyed_event(old(state)@.agent_id, "agent destroyed"@),
                views(done.1.closed@),
                done.1.report,
            ),
            final(state)@ == old(state)@.taken_down(),
    {
        self.registry.disown(state.conversation_id.as_str());
        let farewell = state.destroy();
        (DestroyAgentResponse {  }, farewell)
    }

    /// A client asks an agent to take a turn.
    pub fn send_turn<E, L>(&self, request: SendTurnRequest<E, L>) -> (turn: Result<
        (&A, FoundTurn<E, L>),
        Status,
    >)
        ensures
            match turn {
                Ok((agent, found)) => {
                    &&& self.finds(request.agent_id@, Ok(agent))
                    &&& found.turn_id == request.turn_id
                    &&& found.message_json == request.message_json
                    &&& found.max_tokens == request.max_tokens
                },
                Err(status) => self.finds(request.agent_id@, Err(status)),
            },
    {
        match self.find(request.agent_id.as_str()) {
            Ok(agent) => Ok(
                (
                    agent,
                    FoundTurn {
                        turn_id: request.turn_id,
                        message_json: request.message_json,
                        max_tokens: request.max_tokens,
                    },
                ),
            ),
            Err(status) => Err(status),
        }
    }

    /// A client asks that the turn of an agent be cancelled.
    pub fn cancel_turn(&self, request: CancelTurnRequest) -> (agent: Result<&A, Status>)
        ensures
            self.finds(request.agent_id@, agent),
    {
        self.find(request.agent_id.as_str())
    }

    /// A client asks that an agent change over to a conversation. One that
    /// another agent owns is not to be had.
    pub fn load_conversation(&self, request: LoadConversationRequest) -> (load: Result<
        (&A, PendingLoad),
        Status,
    >)
        ensures
            match load {
                Ok((agent, pending)) => {
                    &&& self.finds(request.agent_id@, Ok(agent))
                    &&& !self.registry@.owned_by_other(request.conversation_id@, request.agent_id@)
                    &&& pending.agent_id == request.agent_id
                    &&& pending.conversation_id == request.conversation_id
                },
                Err(status) => if self.registry@.agents.contains_key(request.agent_id@) {
                    &&& self.registry@.owned_by_other(request.conversation_id@, request.agent_id@)
                    &&& status@ == owned_by_another()
                } else {
                    status@ == agent_not_found()
                },
            },
    {
        match self.find(request.agent_id.as_str()) {
            Ok(agent) => {
                if self.registry.owned_by_other(
                    request.conversation_id.as_str(),
                    &request.agent_id,
                ) {
                    return Err(
                        Status::failed_precondition("conversation is owned by another agent"),
                    );
                }
                Ok(
                    (
                        agent,
                        PendingLoad {
                            agent_id: request.agent_id,
                            conversation_id: request.conversation_id,
                        },
                    ),
                )
            },
            Err(status) => Err(status),
        }
    }

    /// Makes the agent the owner of the conversation that it is on now, and
    /// nobody the owner of the one before.
    pub fn finish_load(&mut self, loaded: LoadedConversation) -> (response:
        LoadConversationResponse)
        ensures
            final(self).payload_version == old(self).payload_version,
            final(self).mint == old(self).mint,
            final(self).registry@ == old(self).registry@.moved(
                loaded.agent_id@,
                loaded.previous@,
                loaded.conversation_id@,
            ),
    {
        self.registry.move_owner(
            loaded.agent_id,
            loaded.previous.as_str(),
            loaded.conversation_id,
        );
        LoadConversationResponse {  }
    }

    /// A client asks which conversation an agent is on.
    pub fn get_conversation(&self, request: GetConversationRequest) -> (agent: Result<&A, Status>)
        ensures
            self.finds(request.agent_id@, agent),
    {
        self.find(request.agent_id.as_str())
    }

    /// A client asks for the events of an agent.
    pub fn subscribe(&self, request: SubscribeRequest) -> (agent: Result<&A, Status>)
        ensures
            self.finds(request.agent_id@, agent),
    {
        self.find(request.agent_id.as_str())
    }
}

} // verus!
