//! Running a trace, one step at a time.
//!
//! The protocol engines of the agents are not part of this library. A trace
//! is therefore run in turns: [`Trace::advance`] does what the library can
//! do, then says which agent's engine has to run; when that has happened, it
//! is called again.

use crate::agent::{agent_position, fresh_agent, lemma_agent_position, AgentModel, AgentName};
use crate::error::Error;
use crate::io::{
    framing, message_of, parsed_handshake_type, wire, Framing, MessageResult, OpaqueMessage,
    RecordModel, StreamModel, ALERT, APPLICATION_DATA, CHANGE_CIPHER_SPEC, HANDSHAKE,
    HEADER_SIZE, HEARTBEAT,
};
use crate::term::dynamic_function::{value_models, FunctionLibrary, Value, ValueModel};
use crate::term::evaluate::evaluated;
use crate::term::{Term, TermModel};
use crate::trace::{
    Action, ActionModel, ContextModel, Knowledge, KnowledgeModel, TlsMessageType, Trace,
    TraceContext, TraceModel, MESSAGE, OPAQUE_MESSAGE,
};
use vstd::prelude::*;

verus! {

/// The record that a value stands for, if it is a message or a record: the
/// first five bytes of its data are the header, the others the payload.
pub open spec fn record_of_value(value: ValueModel) -> Option<RecordModel> {
    if (value.shape.id == MESSAGE || value.shape.id == OPAQUE_MESSAGE) && value.data.len()
        >= HEADER_SIZE {
        Some(
            RecordModel {
                typ: value.data[0],
                version: (value.data[1] * 256 + value.data[2]) as u16,
                payload: value.data.skip(HEADER_SIZE as int),
            },
        )
    } else {
        None
    }
}

/// The record that `value` stands for; a value of another type, or with less
/// than a header, stands for none.
pub fn opaque_of_value(value: &Value) -> (r: Result<OpaqueMessage, Error>)
    ensures
        match record_of_value(value@) {
            Some(record) => r matches Ok(opaque) && opaque@ == record,
            None => r matches Err(Error::Type),
        },
{
    if (value.shape.id != MESSAGE && value.shape.id != OPAQUE_MESSAGE) || value.data.len()
        < HEADER_SIZE {
        return Err(Error::Type);
    }
    let version = (value.data[1] as u16) * 256 + (value.data[2] as u16);
    let mut payload: Vec<u8> = Vec::new();
    let mut i: usize = HEADER_SIZE;
    while i < value.data.len()
        invariant
            HEADER_SIZE <= i <= value.data.len(),
            payload@ == value.data@.subrange(HEADER_SIZE as int, i as int),
        decreases value.data.len() - i,
    {
        payload.push(value.data[i]);
        i = i + 1;
    }
    Ok(OpaqueMessage { typ: value.data[0], version, payload })
}

/// The kind under which a record is filed that was not understood.
pub open spec fn kind_of_record(typ: u8) -> Option<TlsMessageType> {
    if typ == CHANGE_CIPHER_SPEC {
        Some(TlsMessageType::ChangeCipherSpec)
    } else if typ == ALERT {
        Some(TlsMessageType::Alert)
    } else if typ == HANDSHAKE {
        Some(TlsMessageType::Handshake(None))
    } else if typ == APPLICATION_DATA {
        Some(TlsMessageType::ApplicationData)
    } else if typ == HEARTBEAT {
        Some(TlsMessageType::Heartbeat)
    } else {
        None
    }
}

/// `values` as knowledge of `agent` from a message of kind `kind`.
pub open spec fn tagged(
    agent: AgentName,
    kind: Option<TlsMessageType>,
    values: Seq<ValueModel>,
) -> Seq<KnowledgeModel> {
    Seq::new(
        values.len(),
        |i: int| KnowledgeModel { agent_name: agent, tls_message_type: kind, data: values[i] },
    )
}

/// What is learnt from one record that `agent` has sent.
///
/// Where the record holds a message that was understood: the message itself,
/// then what the library takes note of in it, all under the kind of the
/// message. Then, in any case, the record as it travelled, under the kind
/// that its content type names.
pub open spec fn learnt<L: FunctionLibrary>(
    context: ContextModel,
    agent: AgentName,
    record: RecordModel,
    library: L,
) -> Seq<KnowledgeModel> {
    let understood = match message_of(
        record,
        parsed_handshake_type(record.typ, record.version, record.payload),
    ) {
        Some(message) => tagged(
            agent,
            Some(message.message_type),
            seq![ValueModel { shape: context.message_shape, data: wire(record) }]
                + library.claims(message),
        ),
        None => Seq::empty(),
    };
    understood + seq![
        KnowledgeModel {
            agent_name: agent,
            tls_message_type: kind_of_record(record.typ),
            data: ValueModel { shape: context.opaque_shape, data: wire(record) },
        },
    ]
}

/// What is learnt from the records at the head of `outbound`, what is left
/// of `outbound` when no further record can be taken, and whether that is
/// because what is left is no record at all.
pub open spec fn collected<L: FunctionLibrary>(
    context: ContextModel,
    agent: AgentName,
    outbound: Seq<u8>,
    library: L,
) -> (Seq<KnowledgeModel>, Seq<u8>, Result<(), Error>)
    decreases outbound.len(),
{
    match framing(outbound) {
        Framing::Complete { record, used } => {
            let rest = collected(context, agent, outbound.skip(used as int), library);
            (learnt(context, agent, record, library) + rest.0, rest.1, rest.2)
        },
        Framing::Partial => (Seq::empty(), outbound, Ok(())),
        Framing::Invalid => (Seq::empty(), outbound, Err(Error::Stream)),
    }
}

/// The context after an output step of `agent`, and how the step ended: all
/// records that the agent has sent are taken and what is learnt from them is
/// added to the knowledge.
pub open spec fn after_output<L: FunctionLibrary>(
    context: ContextModel,
    agent: AgentName,
    library: L,
) -> (ContextModel, Result<(), Error>) {
    match agent_position(context.agents, agent, 0) {
        None => (context, Err(Error::Agent(agent))),
        Some(i) => {
            let stream = context.agents[i].stream;
            let outcome = collected(context, agent, stream.outbound, library);
            (
                context.with_stream(i, StreamModel { outbound: outcome.1, ..stream }).with_knowledge(
                    outcome.0,
                ),
                outcome.2,
            )
        },
    }
}

/// The context after an input step of `agent` with `recipe`, and how the
/// step ended: the recipe is evaluated, and the record that its value stands
/// for is appended to the agent's inbound channel.
pub open spec fn after_input<L: FunctionLibrary>(
    context: ContextModel,
    agent: AgentName,
    recipe: TermModel,
    library: L,
) -> (ContextModel, Result<(), Error>) {
    match evaluated(recipe, context.knowledge, library) {
        Err(error) => (context, Err(error)),
        Ok(value) => match record_of_value(value) {
            None => (context, Err(Error::Type)),
            Some(record) => match agent_position(context.agents, agent, 0) {
                None => (context, Err(Error::Agent(agent))),
                Some(i) => (
                    context.with_stream(
                        i,
                        StreamModel {
                            inbound: context.agents[i].stream.inbound + wire(record),
                            ..context.agents[i].stream
                        },
                    ),
                    Ok(()),
                ),
            },
        },
    }
}

/// The context with the agents of `trace` brought to life behind those that are there.
pub open spec fn after_spawn(context: ContextModel, trace: TraceModel) -> ContextModel {
    ContextModel {
        agents: context.agents + Seq::new(
            trace.descriptors.len(),
            |i: int| fresh_agent(trace.descriptors[i]),
        ),
        ..context
    }
}

/// How far the execution of a trace has come.
#[derive(Clone, Copy, Debug, PartialEq, Eq, Structural)]
pub enum Progress {
    /// Nothing has happened yet.
    Start,
    /// The steps before the one with this index are done.
    Ready(usize),
    /// The step with this index waits for the engine of its agent to run.
    Waiting(usize),
}

/// What the driver of an execution has to do next.
#[derive(Clone, Copy, Debug, PartialEq, Eq, Structural)]
pub enum Next {
    /// Let the protocol engine of this agent run until it wants to read,
    /// then advance again.
    Advance(AgentName),
    /// Nothing: the trace has been run to its end.
    Done,
}

/// The context after one turn of the execution of `trace` from `progress`,
/// and either the new progress with what the driver has to do, or the error
/// that ended the execution.
///
/// An input step delivers its message and then waits for the engine of its
/// agent; an output step waits for the engine first and then collects what
/// the agent has sent.
pub open spec fn advanced<L: FunctionLibrary>(
    trace: TraceModel,
    context: ContextModel,
    progress: Progress,
    library: L,
) -> (ContextModel, Result<(Progress, Next), Error>)
    decreases
            match progress {
                Progress::Start => 2nat,
                Progress::Waiting(_) => 1nat,
                Progress::Ready(_) => 0nat,
            },
{
    match progress {
        Progress::Start => advanced(trace, after_spawn(context, trace), Progress::Ready(0), library),
        Progress::Ready(index) => if index >= trace.steps.len() {
            (context, Ok((progress, Next::Done)))
        } else {
            let step = trace.steps[index as int];
            let waiting = Ok((Progress::Waiting(index), Next::Advance(step.agent)));
            match step.action {
                ActionModel::Output => (context, waiting),
                ActionModel::Input(recipe) => {
                    let outcome = after_input(context, step.agent, recipe, library);
                    match outcome.1 {
                        Err(error) => (outcome.0, Err(error)),
                        Ok(_) => (outcome.0, waiting),
                    }
                },
            }
        },
        Progress::Waiting(index) => if index >= trace.steps.len() {
            (context, Ok((Progress::Ready(index), Next::Done)))
        } else {
            let step = trace.steps[index as int];
            match step.action {
                ActionModel::Input(_) => advanced(
                    trace,
                    context,
                    Progress::Ready((index + 1) as usize),
                    library,
                ),
                ActionModel::Output => {
                    let outcome = after_output(context, step.agent, library);
                    match outcome.1 {
                        Err(error) => (outcome.0, Err(error)),
                        Ok(_) => advanced(
                            trace,
                            outcome.0,
                            Progress::Ready((index + 1) as usize),
                            library,
                        ),
                    }
                },
            }
        },
    }
}

impl TraceContext {
    /// Delivers to `agent` the message that `value` stands for.
    fn deliver(&mut self, agent: AgentName, value: &Value) -> (r: Result<(), Error>)
        ensures
            match record_of_value(value@) {
                None => r == Err::<(), Error>(Error::Type) && final(self)@ == old(self)@,
                Some(record) => match agent_position(old(self)@.agents, agent, 0) {
                    None => r == Err::<(), Error>(Error::Agent(agent)) && final(self)@ == old(
                        self,
                    )@,
                    Some(i) => r == Ok::<(), Error>(()) && final(self)@ == old(self)@.with_stream(
                        i,
                        StreamModel {
                            inbound: old(self)@.agents[i].stream.inbound + wire(record),
                            ..old(self)@.agents[i].stream
                        },
                    ),
                },
            },
    {
        let opaque = match opaque_of_value(value) {
            Ok(opaque) => opaque,
            Err(_) => {
                return Err(Error::Type);
            },
        };
        self.add_to_inbound(agent, &opaque)
    }

    /// Adds what is learnt from one record that `agent` has sent.
    fn learn<L: FunctionLibrary>(&mut self, agent: AgentName, taken: MessageResult, library: &L)
        requires
            taken.message() == message_of(
                taken.record(),
                parsed_handshake_type(
                    taken.record().typ,
                    taken.record().version,
                    taken.record().payload,
                ),
            ),
        ensures
            final(self)@ == old(self)@.with_knowledge(
                learnt(old(self)@, agent, taken.record(), *library),
            ),
    {
        let MessageResult(message, opaque) = taken;
        let ghost record = opaque@;
        let ghost start = self@;
        let bytes = opaque.encode();
        match message {
            Some(message) => {
                let kind = Some(message.message_type);
                let claims = library.extract_knowledge(&message);
                let ghost all = seq![ValueModel { shape: start.message_shape, data: wire(record) }]
                    + value_models(claims@);
                self.add_knowledge(
                    Knowledge {
                        agent_name: agent,
                        tls_message_type: kind,
                        data: Value {
                            shape: self.message_shape().clone(),
                            data: crate::io::clone_bytes(&bytes),
                        },
                    },
                );
                assert(self@.knowledge =~= start.knowledge + tagged(agent, kind, all.take(1)));
                let mut claims = claims;
                let mut i: usize = 0;
                let count = claims.len();
                let ghost given = value_models(claims@);
                // the claims are moved out of their vector from its end, so
                // they are gathered in reverse and added in order afterwards
                let mut reversed: Vec<Value> = Vec::new();
                while claims.len() > 0
                    invariant
                        claims.len() + reversed.len() == count,
                        count == given.len(),
                        forall|j: int| 0 <= j < claims.len() ==> claims[j]@ == given[j],
                        forall|j: int|
                            0 <= j < reversed.len() ==> reversed[j]@ == given[count - 1 - j],
                    decreases claims.len(),
                {
                    let value = claims.pop().unwrap();
                    reversed.push(value);
                }
                while reversed.len() > 0
                    invariant
                        i + reversed.len() == count,
                        count == given.len(),
                        all == seq![ValueModel { shape: start.message_shape, data: wire(record) }]
                            + given,
                        forall|j: int|
                            0 <= j < reversed.len() ==> reversed[j]@ == given[count - 1 - j],
                        self@ == start.with_knowledge(tagged(agent, kind, all.take(i as int + 1))),
                    decreases reversed.len(),
                {
                    let value = reversed.pop().unwrap();
                    self.add_knowledge(
                        Knowledge { agent_name: agent, tls_message_type: kind, data: value },
                    );
                    proof {
                        assert(self@.knowledge =~= start.knowledge + tagged(
                            agent,
                            kind,
                            all.take(i as int + 2),
                        ));
                    }
                    i = i + 1;
                }
            },
            None => {},
        }
        let kind = if opaque.typ == CHANGE_CIPHER_SPEC {
            Some(TlsMessageType::ChangeCipherSpec)
        } else if opaque.typ == ALERT {
            Some(TlsMessageType::Alert)
        } else if opaque.typ == HANDSHAKE {
            Some(TlsMessageType::Handshake(None))
        } else if opaque.typ == APPLICATION_DATA {
            Some(TlsMessageType::ApplicationData)
        } else if opaque.typ == HEARTBEAT {
            Some(TlsMessageType::Heartbeat)
        } else {
            None
        };
        self.add_knowledge(
            Knowledge {
                agent_name: agent,
                tls_message_type: kind,
                data: Value { shape: self.opaque_shape().clone(), data: bytes },
            },
        );
        assert(self@.knowledge =~= start.knowledge + learnt(start, agent, record, *library));
    }

    /// Takes all records that `agent` has sent and adds what is learnt from them.
    pub fn collect<L: FunctionLibrary>(&mut self, agent: AgentName, library: &L) -> (r: Result<
        (),
        Error,
    >)
        ensures
            final(self)@ == after_output(old(self)@, agent, *library).0,
            r == after_output(old(self)@, agent, *library).1,
    {
        let index = self.find_agent(agent)?;
        let ghost start = self@;
        let ghost stream = start.agents[index as int].stream;
        let ghost whole = collected(start, agent, stream.outbound, *library);
        let ghost so_far = Seq::<KnowledgeModel>::empty();
        proof {
            assert(start.agents =~= start.agents.update(index as int, start.agents[index as int]));
        }
        loop
            invariant
                start == old(self)@,
                agent_position(start.agents, agent, 0) == Some(index as int),
                index < start.agents.len(),
                stream == start.agents[index as int].stream,
                whole == collected(start, agent, stream.outbound, *library),
                self@ == start.with_stream(
                    index as int,
                    StreamModel {
                        outbound: self@.agents[index as int].stream.outbound,
                        ..stream
                    },
                ).with_knowledge(so_far),
                ({
                    let rest = collected(
                        start,
                        agent,
                        self@.agents[index as int].stream.outbound,
                        *library,
                    );
                    whole == (so_far + rest.0, rest.1, rest.2)
                }),
            decreases self@.agents[index as int].stream.outbound.len(),
        {
            let ghost before = self@;
            proof {
                lemma_position_after_update(start.agents, agent, index as int, before.agents);
            }
            match self.take_message_from_outbound(agent) {
                Err(error) => {
                    proof {
                        assert(before.agents =~= self@.agents);
                    }
                    return Err(error);
                },
                Ok(None) => {
                    proof {
                        assert(before.agents =~= self@.agents);
                    }
                    return Ok(());
                },
                Ok(Some(taken)) => {
                    let ghost record = taken.record();
                    self.learn(agent, taken, library);
                    proof {
                        let news = learnt(start, agent, record, *library);
                        assert(self@.knowledge =~= start.knowledge + (so_far + news));
                        so_far = so_far + news;
                        assert(self@.agents =~= start.with_stream(
                            index as int,
                            StreamModel {
                                outbound: self@.agents[index as int].stream.outbound,
                                ..stream
                            },
                        ).agents);
                    }
                },
            }
        }
    }
}

/// The first agent of a name stays the first one when the agent at its
/// place is exchanged for one of the same name.
pub proof fn lemma_position_after_update(
    agents: Seq<AgentModel>,
    name: AgentName,
    index: int,
    updated: Seq<AgentModel>,
)
    requires
        agent_position(agents, name, 0) == Some(index),
        updated.len() == agents.len(),
        forall|j: int| 0 <= j < agents.len() ==> (#[trigger] updated[j]).name == agents[j].name,
    ensures
        agent_position(updated, name, 0) == Some(index),
{
    lemma_agent_position(agents, name, 0);
    lemma_agent_position(updated, name, 0);
    assert(updated[index].name == agents[index].name);
}

impl TraceContext {
    /// Evaluates `recipe` and delivers the message that its value stands for to `agent`.
    pub fn input<L: FunctionLibrary>(&mut self, agent: AgentName, recipe: &Term, library: &L) -> (r:
        Result<(), Error>)
        ensures
            final(self)@ == after_input(old(self)@, agent, recipe@, *library).0,
            r == after_input(old(self)@, agent, recipe@, *library).1,
    {
        let value = match recipe.evaluate(self, library) {
            Ok(value) => value,
            Err(error) => {
                return Err(error);
            },
        };
        self.deliver(agent, &value)
    }
}

impl Trace {
    /// Brings the agents of the trace to life, in the order of their descriptors.
    pub fn spawn_agents(&self, context: &mut TraceContext)
        ensures
            final(context)@ == after_spawn(old(context)@, self@),
    {
        let mut i: usize = 0;
        while i < self.descriptors.len()
            invariant
                i <= self.descriptors.len(),
                context@ == (ContextModel {
                    agents: old(context)@.agents + Seq::new(
                        i as nat,
                        |j: int| fresh_agent(self@.descriptors[j]),
                    ),
                    ..old(context)@
                }),
            decreases self.descriptors.len() - i,
        {
            context.new_agent(&self.descriptors[i]);
            proof {
                assert(context@.agents =~= old(context)@.agents + Seq::new(
                    (i + 1) as nat,
                    |j: int| fresh_agent(self@.descriptors[j]),
                ));
            }
            i = i + 1;
        }
    }

    /// Runs the trace one turn further.
    ///
    /// The driver begins with [`Progress::Start`]. As long as the answer is
    /// [`Next::Advance`], it lets the engine of the named agent run and
    /// advances again with the progress it was given. An error ends the
    /// execution of the trace.
    pub fn advance<L: FunctionLibrary>(
        &self,
        context: &mut TraceContext,
        progress: Progress,
        library: &L,
    ) -> (r: Result<(Progress, Next), Error>)
        ensures
            final(context)@ == advanced(self@, old(context)@, progress, *library).0,
            r == advanced(self@, old(context)@, progress, *library).1,
    {
        proof {
            reveal_with_fuel(advanced, 3);
        }
        let index = match progress {
            Progress::Start => {
                self.spawn_agents(context);
                0
            },
            Progress::Ready(index) => index,
            Progress::Waiting(index) => {
                if index >= self.steps.len() {
                    return Ok((Progress::Ready(index), Next::Done));
                }
                let step = &self.steps[index];
                match &step.action {
                    Action::Input(_) => {},
                    Action::Output(_) => match context.collect(step.agent, library) {
                        Ok(_) => {},
                        Err(error) => {
                            return Err(error);
                        },
                    },
                }
                index + 1
            },
        };
        if index >= self.steps.len() {
            return Ok((Progress::Ready(index), Next::Done));
        }
        let step = &self.steps[index];
        match &step.action {
            Action::Output(_) => {},
            Action::Input(input) => match context.input(step.agent, &input.recipe, library) {
                Ok(_) => {},
                Err(error) => {
                    return Err(error);
                },
            },
        }
        Ok((Progress::Waiting(index), Next::Advance(step.agent)))
    }
}

} // verus!
