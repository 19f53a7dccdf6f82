//! Names and descriptions of the agents that take part in a trace.

use crate::io::{MemoryStream, StreamModel};
use vstd::prelude::*;

verus! {

/// Identifies one agent of a trace. Names are small integers, ordered by their number.
#[derive(Clone, Copy, Debug, PartialEq, Eq, Structural, Hash)]
pub struct AgentName(pub u8);

impl AgentName {
    /// The name of the first agent.
    pub fn new() -> (r: AgentName)
        ensures
            r == AgentName(0),
    {
        AgentName(0)
    }

    /// The name of the first agent.
    pub fn first() -> (r: AgentName)
        ensures
            r == AgentName(0),
    {
        AgentName(0)
    }

    /// The name that follows this one.
    pub fn next(&self) -> (r: AgentName)
        requires
            self.0 < u8::MAX,
        ensures
            r.0 == self.0 + 1,
    {
        AgentName(self.0 + 1)
    }

    /// The number behind the name.
    pub fn index(&self) -> (r: u8)
        ensures
            r == self.0,
    {
        self.0
    }
}

/// The protocol version an agent speaks.
#[derive(Clone, Copy, Debug, PartialEq, Eq, Structural, Hash)]
pub enum TLSVersion {
    V1_3,
    V1_2,
}

/// How to bring an agent to life: its name, its protocol version and its role.
#[derive(Clone, Copy, Debug, PartialEq, Eq, Structural, Hash)]
pub struct AgentDescriptor {
    pub name: AgentName,
    pub tls_version: TLSVersion,
    /// Whether the agent is a server; otherwise it is a client.
    pub server: bool,
}

/// A named endpoint: its name, how it was brought to life, and the stream
/// that stands for its socket.
#[derive(Debug)]
pub struct Agent {
    pub name: AgentName,
    pub descriptor: AgentDescriptor,
    pub stream: MemoryStream,
}

/// An [`Agent`] as plain mathematics.
pub struct AgentModel {
    pub name: AgentName,
    pub descriptor: AgentDescriptor,
    pub stream: StreamModel,
}

impl View for Agent {
    type V = AgentModel;

    open spec fn view(&self) -> AgentModel {
        AgentModel { name: self.name, descriptor: self.descriptor, stream: self.stream@ }
    }
}

impl Agent {
    /// The agent that `descriptor` describes, with nothing in its channels.
    pub fn new(descriptor: &AgentDescriptor) -> (r: Agent)
        ensures
            r@ == fresh_agent(*descriptor),
    {
        Agent { name: descriptor.name, descriptor: *descriptor, stream: MemoryStream::new() }
    }
}

/// The agent that `descriptor` describes, with nothing in its channels.
pub open spec fn fresh_agent(descriptor: AgentDescriptor) -> AgentModel {
    AgentModel {
        name: descriptor.name,
        descriptor,
        stream: StreamModel { inbound: Seq::empty(), outbound: Seq::empty() },
    }
}

/// The models of a sequence of agents.
pub open spec fn agent_models(agents: Seq<Agent>) -> Seq<AgentModel> {
    Seq::new(agents.len(), |i: int| agents[i]@)
}

/// The index of the first of `agents` that is called `name`.
pub open spec fn agent_position(agents: Seq<AgentModel>, name: AgentName, from: int) -> Option<int>
    decreases agents.len() - from,
{
    if from < 0 || from >= agents.len() {
        None
    } else if agents[from].name == name {
        Some(from)
    } else {
        agent_position(agents, name, from + 1)
    }
}

/// What [`agent_position`] finds is an agent of that name, and the first one.
pub proof fn lemma_agent_position(agents: Seq<AgentModel>, name: AgentName, from: int)
    requires
        0 <= from,
    ensures
        match agent_position(agents, name, from) {
            Some(i) => from <= i < agents.len() && agents[i].name == name && forall|j: int|
                from <= j < i ==> (#[trigger] agents[j]).name != name,
            None => forall|j: int| from <= j < agents.len() ==> (#[trigger] agents[j]).name != name,
        },
    decreases agents.len() - from,
{
    if from < agents.len() && agents[from].name != name {
        lemma_agent_position(agents, name, from + 1);
    }
}

} // verus!
