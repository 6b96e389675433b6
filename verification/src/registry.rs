//! Which agents there are, and which of them a conversation belongs to.

use vstd::hash_map::StringHashMap;
use vstd::prelude::*;

verus! {

/// The agents by name, and the name of the agent that owns each conversation.
/// `A` is whatever the caller reaches an agent by.
#[verifier::reject_recursive_types(A)]
pub struct Registry<A> {
    pub agents: StringHashMap<A>,
    pub owners: StringHashMap<String>,
}

/// A [`Registry`] as two maps over characters.
#[verifier::ext_equal]
#[verifier::reject_recursive_types(A)]
pub struct RegistryView<A> {
    pub agents: Map<Seq<char>, A>,
    pub owners: Map<Seq<char>, Seq<char>>,
}

impl<A> View for Registry<A> {
    type V = RegistryView<A>;

    open spec fn view(&self) -> RegistryView<A> {
        RegistryView {
            agents: self.agents@,
            owners: self.owners@.map_values(|owner: String| owner@),
        }
    }
}

impl<A> RegistryView<A> {
    /// No agents and no conversations.
    pub open spec fn empty() -> Self {
        RegistryView { agents: Map::empty(), owners: Map::empty() }
    }

    /// The agent that a client is put through to who asks for an agent on the
    /// conversation: its owner, if that is still there.
    pub open spec fn attached(self, conversation_id: Seq<char>) -> Option<Seq<char>> {
        if self.owners.contains_key(conversation_id) && self.agents.contains_key(
            self.owners[conversation_id],
        ) {
            Some(self.owners[conversation_id])
        } else {
            None
        }
    }

    /// The conversation is owned, and not by this agent.
    pub open spec fn owned_by_other(self, conversation_id: Seq<char>, agent_id: Seq<char>) -> bool {
        self.owners.contains_key(conversation_id) && self.owners[conversation_id] != agent_id
    }

    /// With a new agent that owns its conversation.
    pub open spec fn registered(
        self,
        agent_id: Seq<char>,
        conversation_id: Seq<char>,
        handle: A,
    ) -> Self {
        RegistryView {
            agents: self.agents.insert(agent_id, handle),
            owners: self.owners.insert(conversation_id, agent_id),
        }
    }

    /// Without the agent. Its conversation keeps its owner.
    pub open spec fn without_agent(self, agent_id: Seq<char>) -> Self {
        RegistryView { agents: self.agents.remove(agent_id), ..self }
    }

    /// With a conversation that nobody owns.
    pub open spec fn disowned(self, conversation_id: Seq<char>) -> Self {
        RegistryView { owners: self.owners.remove(conversation_id), ..self }
    }

    /// With an agent that gave up one conversation for another.
    pub open spec fn moved(
        self,
        agent_id: Seq<char>,
        previous: Seq<char>,
        conversation_id: Seq<char>,
    ) -> Self {
        RegistryView {
            owners: self.owners.remove(previous).insert(conversation_id, agent_id),
            ..self
        }
    }
}

impl<A> Default for Registry<A> {
    fn default() -> (registry: Self)
        ensures
            registry@ == RegistryView::<A>::empty(),
    {
        let registry = Registry { agents: StringHashMap::new(), owners: StringHashMap::new() };
        assert(registry@ =~= RegistryView::<A>::empty());
        registry
    }
}

impl<A> Registry<A> {
    /// The agent of that name.
    pub fn agent(&self, agent_id: &str) -> (agent: Option<&A>)
        ensures
            match agent {
                Some(agent) => self@.agents.contains_key(agent_id@) && *agent
                    == self@.agents[agent_id@],
                None => !self@.agents.contains_key(agent_id@),
            },
    {
        self.agents.get(agent_id)
    }

    /// The agent that a client is put through to who asks for one on the
    /// conversation.
    pub fn attached(&self, conversation_id: &str) -> (agent_id: Option<String>)
        ensures
            match agent_id {
                Some(agent_id) => self@.attached(conversation_id@) == Some(agent_id@),
                None => self@.attached(conversation_id@) is None,
            },
    {
        match self.owners.get(conversation_id) {
            Some(owner) => if self.agents.contains_key(owner.as_str()) {
                Some(owner.clone())
            } else {
                None
            },
            None => None,
        }
    }

    /// Whether an agent other than `agent_id` owns the conversation.
    pub fn owned_by_other(&self, conversation_id: &str, agent_id: &String) -> (owned: bool)
        ensures
            owned == self@.owned_by_other(conversation_id@, agent_id@),
    {
        match self.owners.get(conversation_id) {
            Some(owner) => *owner != *agent_id,
            None => false,
        }
    }

    /// Adds an agent that owns its conversation.
    pub fn register(&mut self, agent_id: String, conversation_id: String, handle: A)
        ensures
            final(self)@ == old(self)@.registered(agent_id@, conversation_id@, handle),
    {
        self.agents.insert(agent_id.clone(), handle);
        self.owners.insert(conversation_id, agent_id);
        assert(self@ =~= old(self)@.registered(agent_id@, conversation_id@, handle));
    }

    /// Takes an agent out. The result is a copy of what it was reached by.
    pub fn remove_agent(&mut self, agent_id: &str) -> (agent: Option<A>) where A: Clone
        ensures
            final(self)@ == old(self)@.without_agent(agent_id@),
            match agent {
                Some(agent) => old(self)@.agents.contains_key(agent_id@) && cloned(
                    old(self)@.agents[agent_id@],
                    agent,
                ),
                None => !old(self)@.agents.contains_key(agent_id@),
            },
    {
        let agent = match self.agents.get(agent_id) {
            Some(agent) => Some(agent.clone()),
            None => None,
        };
        self.agents.remove(agent_id);
        agent
    }

    /// Leaves a conversation without an owner.
    pub fn disown(&mut self, conversation_id: &str)
        ensures
            final(self)@ == old(self)@.disowned(conversation_id@),
    {
        self.owners.remove(conversation_id);
        assert(self@ =~= old(self)@.disowned(conversation_id@));
    }

    /// Gives a conversation to an agent in place of the one that it had.
    pub fn move_owner(&mut self, agent_id: String, previous: &str, conversation_id: String)
        ensures
            final(self)@ == old(self)@.moved(agent_id@, previous@, conversation_id@),
    {
        self.owners.remove(previous);
        self.owners.insert(conversation_id, agent_id);
        assert(self@ =~= old(self)@.moved(agent_id@, previous@, conversation_id@));
    }
}

} // verus!
