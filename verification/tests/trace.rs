use tlspuffin::agent::{AgentDescriptor, AgentName, TLSVersion};
use tlspuffin::error::Error;
use tlspuffin::io::OpaqueMessage;
use tlspuffin::term::atoms::{Function, Variable};
use tlspuffin::term::dynamic_function::Value;
use tlspuffin::term::Term;
use tlspuffin::tls::{
    fn_application_data, fn_change_cipher_spec, fn_empty_bytes_vec, fn_opaque_message, fn_seq_0,
    type_shape, BaseFunctions, BYTES,
};
use tlspuffin::trace::execute::{opaque_of_value, Next, Progress};
use tlspuffin::trace::{
    matches_message_type, names_only, Action, Claim, HandshakeType, InputAction, OutputAction, Step,
    TlsMessageType, Trace, TraceContext, VecClaimer, MESSAGE, OPAQUE_MESSAGE,
};

fn descriptor(name: AgentName, server: bool) -> AgentDescriptor {
    AgentDescriptor { name, tls_version: TLSVersion::V1_3, server }
}

fn constant(shape: tlspuffin::term::dynamic_function::DynamicFunctionShape) -> Term {
    Term::Application(Function::new(0, 0, shape), vec![])
}

fn apply(shape: tlspuffin::term::dynamic_function::DynamicFunctionShape, arguments: Vec<Term>) -> Term {
    Term::Application(Function::new(0, 0, shape), arguments)
}

fn input(agent: AgentName, recipe: Term) -> Step {
    Step { agent, action: Action::Input(InputAction { recipe }) }
}

fn output(agent: AgentName) -> Step {
    Step { agent, action: Action::Output(OutputAction {}) }
}

fn two_agents() -> (AgentName, AgentName, Vec<AgentDescriptor>) {
    let client = AgentName::first();
    let server = client.next();
    (client, server, vec![descriptor(client, false), descriptor(server, true)])
}

#[test]
fn agent_names_are_counted_from_the_first() {
    let first = AgentName::first();
    assert_eq!(first, AgentName::new());
    assert_eq!(first.index(), 0);
    assert_eq!(first.next().index(), 1);
    assert_eq!(first.next().next(), AgentName(2));
    assert_ne!(first, first.next());
}

#[test]
fn handshake_types_and_their_numbers() {
    assert_eq!(HandshakeType::from_u8(1), HandshakeType::ClientHello);
    assert_eq!(HandshakeType::from_u8(2), HandshakeType::ServerHello);
    assert_eq!(HandshakeType::from_u8(0x14), HandshakeType::Finished);
    assert_eq!(HandshakeType::from_u8(7), HandshakeType::Unknown(7));
    for code in 0..=255u8 {
        assert_eq!(HandshakeType::from_u8(code).get_u8(), code);
    }
    assert_eq!(HandshakeType::MessageHash.get_u8(), 0xfe);
}

#[test]
fn message_type_filters() {
    let hello = Some(TlsMessageType::Handshake(Some(HandshakeType::ClientHello)));
    let any = Some(TlsMessageType::Handshake(None));
    let data = Some(TlsMessageType::ApplicationData);
    assert!(matches_message_type(&None, &hello));
    assert!(matches_message_type(&None, &None));
    assert!(matches_message_type(&any, &hello));
    assert!(matches_message_type(&any, &any));
    assert!(!matches_message_type(&any, &data));
    assert!(!matches_message_type(&any, &None));
    assert!(matches_message_type(&hello, &hello));
    assert!(!matches_message_type(&hello, &any));
    assert!(!matches_message_type(&hello, &None));
    assert!(matches_message_type(&data, &data));
    assert!(!matches_message_type(&data, &hello));
    assert!(matches_message_type(&Some(TlsMessageType::Heartbeat), &Some(TlsMessageType::Heartbeat)));
}

#[test]
fn a_new_context_knows_the_message_types() {
    let context = TraceContext::new();
    assert_eq!(context.knowledge_len(), 0);
    assert_eq!(context.agents_len(), 0);
    assert_eq!(context.message_shape().id, MESSAGE);
    assert_eq!(context.message_shape().name(), "rustls::msgs::message::Message");
    assert_eq!(context.opaque_shape().id, OPAQUE_MESSAGE);
    assert_eq!(context.opaque_shape().name(), "rustls::msgs::message::OpaqueMessage");
}

#[test]
fn claims_are_kept_in_order() {
    let mut claimer = VecClaimer::new();
    let agent = AgentName::first();
    claimer.claim(agent, Claim { kind: 1, data: vec![1] });
    claimer.claim(agent.next(), Claim { kind: 2, data: vec![] });
    assert_eq!(claimer.len(), 2);
    assert_eq!(claimer.get(0).unwrap().1.kind, 1);
    assert_eq!(claimer.get(1).unwrap().0, agent.next());
    assert!(claimer.get(2).is_none());
    let mut context = TraceContext::new();
    context.claim(agent, Claim { kind: 3, data: vec![] });
    assert_eq!(context.knowledge_len(), 0);
}

#[test]
fn streams_are_found_by_the_name_of_their_agent() {
    let (client, server, descriptors) = two_agents();
    let mut context = TraceContext::new();
    let trace = Trace { descriptors, steps: vec![] };
    trace.spawn_agents(&mut context);
    assert_eq!(context.agents_len(), 2);
    assert!(matches!(context.find_agent(client), Ok(0)));
    assert!(matches!(context.find_agent(server), Ok(1)));
    let stranger = server.next();
    assert!(matches!(context.find_agent(stranger), Err(Error::Agent(name)) if name == stranger));

    let record = OpaqueMessage::new(0x17, 0x0303, vec![1]);
    assert!(context.add_to_inbound(server, &record).is_ok());
    assert!(matches!(context.add_to_inbound(stranger, &record), Err(Error::Agent(_))));
    assert_eq!(context.take_inbound(client).unwrap(), Vec::<u8>::new());
    assert_eq!(context.take_inbound(server).unwrap(), vec![0x17, 3, 3, 0, 1, 1]);
    assert_eq!(context.take_inbound(server).unwrap(), Vec::<u8>::new());
    assert!(matches!(context.take_inbound(stranger), Err(Error::Agent(_))));

    assert!(context.write_outbound(client, &[0x17, 3, 3, 0, 1, 9]).is_ok());
    assert!(matches!(context.write_outbound(stranger, &[1]), Err(Error::Agent(_))));
    assert!(matches!(context.take_message_from_outbound(server), Ok(None)));
    assert!(matches!(context.take_message_from_outbound(client), Ok(Some(_))));
    assert!(matches!(context.take_message_from_outbound(client), Ok(None)));
    assert!(matches!(context.take_message_from_outbound(stranger), Err(Error::Agent(_))));
}

#[test]
fn the_first_agent_of_a_name_is_meant() {
    let agent = AgentName::first();
    let mut context = TraceContext::new();
    context.new_agent(&descriptor(agent, false));
    context.new_agent(&descriptor(agent, true));
    assert!(matches!(context.find_agent(agent), Ok(0)));
}

#[test]
fn opaque_of_value_reads_header_and_payload() {
    let value = Value::new(type_shape(MESSAGE), vec![0x16, 0x03, 0x01, 0xff, 0xff, 1, 2, 3]);
    let opaque = opaque_of_value(&value).unwrap();
    assert_eq!(opaque.typ, 0x16);
    assert_eq!(opaque.version, 0x0301);
    assert_eq!(opaque.payload, vec![1, 2, 3]);
    let value = Value::new(type_shape(OPAQUE_MESSAGE), vec![0x17, 0x03, 0x03, 0, 0]);
    assert!(opaque_of_value(&value).unwrap().payload.is_empty());
    // too short for a header
    let value = Value::new(type_shape(OPAQUE_MESSAGE), vec![0x17, 0x03, 0x03, 0]);
    assert!(matches!(opaque_of_value(&value), Err(Error::Type)));
    // neither a message nor a record
    let value = Value::new(type_shape(BYTES), vec![0x17, 0x03, 0x03, 0, 0]);
    assert!(matches!(opaque_of_value(&value), Err(Error::Type)));
}

#[test]
fn input_steps_deliver_and_wait() {
    let (client, server, descriptors) = two_agents();
    let trace = Trace {
        descriptors,
        steps: vec![
            input(server, apply(fn_application_data(), vec![constant(fn_empty_bytes_vec())])),
            input(client, constant(fn_change_cipher_spec())),
        ],
    };
    let library = BaseFunctions::new();
    let mut context = TraceContext::new();
    let (progress, next) = trace.advance(&mut context, Progress::Start, &library).unwrap();
    assert_eq!(context.agents_len(), 2);
    assert_eq!(progress, Progress::Waiting(0));
    assert_eq!(next, Next::Advance(server));
    assert_eq!(context.take_inbound(server).unwrap(), vec![0x17, 3, 3, 0, 0]);
    let (progress, next) = trace.advance(&mut context, progress, &library).unwrap();
    assert_eq!(progress, Progress::Waiting(1));
    assert_eq!(next, Next::Advance(client));
    assert_eq!(context.take_inbound(client).unwrap(), vec![0x14, 3, 3, 0, 1, 1]);
    assert_eq!(context.take_inbound(server).unwrap(), Vec::<u8>::new());
    let (progress, next) = trace.advance(&mut context, progress, &library).unwrap();
    assert_eq!(progress, Progress::Ready(2));
    assert_eq!(next, Next::Done);
    let (progress, next) = trace.advance(&mut context, progress, &library).unwrap();
    assert_eq!(progress, Progress::Ready(2));
    assert_eq!(next, Next::Done);
    assert_eq!(context.knowledge_len(), 0);
}

#[test]
fn output_steps_wait_and_collect() {
    let (client, server, descriptors) = two_agents();
    let trace = Trace { descriptors, steps: vec![output(client), output(server)] };
    let library = BaseFunctions::new();
    let mut context = TraceContext::new();
    let (progress, next) = trace.advance(&mut context, Progress::Start, &library).unwrap();
    assert_eq!((progress, next), (Progress::Waiting(0), Next::Advance(client)));
    assert_eq!(context.knowledge_len(), 0);
    // the engine of the client writes a handshake message, application data and half a record
    let mut written = OpaqueMessage::new(0x16, 0x0303, vec![0x0e, 0, 0, 0]).encode();
    written.extend(OpaqueMessage::new(0x17, 0x0303, vec![5, 6]).encode());
    written.extend([0x17, 0x03, 0x03, 0x00]);
    context.write_outbound(client, &written).unwrap();
    let (progress, next) = trace.advance(&mut context, progress, &library).unwrap();
    assert_eq!((progress, next), (Progress::Waiting(1), Next::Advance(server)));

    // the message and the record of the first, then of the second
    assert_eq!(context.knowledge_len(), 4);
    let done = Some(TlsMessageType::Handshake(Some(HandshakeType::ServerHelloDone)));
    let entry = context.knowledge_at(0).unwrap();
    assert_eq!(entry.agent_name, client);
    assert_eq!(entry.tls_message_type, done);
    assert_eq!(entry.data.shape.id, MESSAGE);
    assert_eq!(entry.data.data, vec![0x16, 3, 3, 0, 4, 0x0e, 0, 0, 0]);
    let entry = context.knowledge_at(1).unwrap();
    assert_eq!(entry.tls_message_type, Some(TlsMessageType::Handshake(None)));
    assert_eq!(entry.data.shape.id, OPAQUE_MESSAGE);
    assert_eq!(entry.data.data, vec![0x16, 3, 3, 0, 4, 0x0e, 0, 0, 0]);
    let entry = context.knowledge_at(2).unwrap();
    assert_eq!(entry.tls_message_type, Some(TlsMessageType::ApplicationData));
    assert_eq!(entry.data.shape.id, MESSAGE);
    let entry = context.knowledge_at(3).unwrap();
    assert_eq!(entry.tls_message_type, Some(TlsMessageType::ApplicationData));
    assert_eq!(entry.data.shape.id, OPAQUE_MESSAGE);
    assert_eq!(entry.data.data, vec![0x17, 3, 3, 0, 2, 5, 6]);

    // the server has sent nothing
    let (progress, next) = trace.advance(&mut context, progress, &library).unwrap();
    assert_eq!((progress, next), (Progress::Ready(2), Next::Done));
    assert_eq!(context.knowledge_len(), 4);
    // the half record of the client is still there
    context.write_outbound(client, &[0x01, 0x09]).unwrap();
    assert!(context.collect(client, &library).is_ok());
    assert_eq!(context.knowledge_len(), 6);
    assert_eq!(context.knowledge_at(5).unwrap().data.data, vec![0x17, 3, 3, 0, 1, 9]);
}

#[test]
fn what_one_agent_sent_can_be_delivered_to_the_other() {
    let (client, server, descriptors) = two_agents();
    let forwarded = Term::Variable(Variable::new(0, 0, type_shape(OPAQUE_MESSAGE), client, None, 1));
    let trace = Trace {
        descriptors,
        steps: vec![output(client), input(server, apply(fn_opaque_message(), vec![forwarded]))],
    };
    let library = BaseFunctions::new();
    let mut context = TraceContext::new();
    let (progress, _) = trace.advance(&mut context, Progress::Start, &library).unwrap();
    let mut written = OpaqueMessage::new(0x16, 0x0303, vec![0xaa]).encode();
    written.extend(OpaqueMessage::new(0x16, 0x0303, vec![0xbb, 0xcc]).encode());
    context.write_outbound(client, &written).unwrap();
    let (progress, next) = trace.advance(&mut context, progress, &library).unwrap();
    assert_eq!((progress, next), (Progress::Waiting(1), Next::Advance(server)));
    assert_eq!(context.take_inbound(server).unwrap(), vec![0x16, 3, 3, 0, 2, 0xbb, 0xcc]);
}

#[test]
fn heartbeat_records_are_filed_as_such() {
    let (client, _, descriptors) = two_agents();
    let trace = Trace { descriptors, steps: vec![] };
    let library = BaseFunctions::new();
    let mut context = TraceContext::new();
    trace.spawn_agents(&mut context);
    context.write_outbound(client, &[0x18, 3, 3, 0, 1, 1]).unwrap();
    context.collect(client, &library).unwrap();
    assert_eq!(context.knowledge_len(), 1);
    assert_eq!(context.knowledge_at(0).unwrap().tls_message_type, Some(TlsMessageType::Heartbeat));
}

#[test]
fn a_step_of_an_unknown_agent_ends_the_execution() {
    let (client, server, descriptors) = two_agents();
    let stranger = server.next();
    let library = BaseFunctions::new();
    let trace = Trace {
        descriptors: descriptors.clone(),
        steps: vec![input(stranger, constant(fn_change_cipher_spec()))],
    };
    let mut context = TraceContext::new();
    let result = trace.advance(&mut context, Progress::Start, &library);
    assert!(matches!(result, Err(Error::Agent(name)) if name == stranger));

    let trace = Trace { descriptors, steps: vec![output(stranger), output(client)] };
    let mut context = TraceContext::new();
    let (progress, next) = trace.advance(&mut context, Progress::Start, &library).unwrap();
    assert_eq!((progress, next), (Progress::Waiting(0), Next::Advance(stranger)));
    let result = trace.advance(&mut context, progress, &library);
    assert!(matches!(result, Err(Error::Agent(name)) if name == stranger));
}

#[test]
fn a_recipe_that_is_no_message_is_a_type_error() {
    let (_, server, descriptors) = two_agents();
    let trace = Trace { descriptors, steps: vec![input(server, constant(fn_seq_0()))] };
    let library = BaseFunctions::new();
    let mut context = TraceContext::new();
    assert!(matches!(trace.advance(&mut context, Progress::Start, &library), Err(Error::Type)));
    assert_eq!(context.take_inbound(server).unwrap(), Vec::<u8>::new());
}

#[test]
fn a_recipe_without_a_value_ends_the_execution() {
    let (client, server, descriptors) = two_agents();
    let missing = Term::Variable(Variable::new(0, 0, type_shape(MESSAGE), client, None, 0));
    let trace = Trace { descriptors, steps: vec![input(server, missing)] };
    let library = BaseFunctions::new();
    let mut context = TraceContext::new();
    assert!(matches!(trace.advance(&mut context, Progress::Start, &library), Err(Error::Missing)));
}

#[test]
fn bytes_that_are_no_record_end_the_execution() {
    let (client, _, descriptors) = two_agents();
    let trace = Trace { descriptors, steps: vec![output(client)] };
    let library = BaseFunctions::new();
    let mut context = TraceContext::new();
    let (progress, _) = trace.advance(&mut context, Progress::Start, &library).unwrap();
    let mut written = OpaqueMessage::new(0x17, 0x0303, vec![1]).encode();
    written.extend([0x99, 0x03, 0x03, 0x00, 0x01, 0x00]);
    context.write_outbound(client, &written).unwrap();
    assert!(matches!(trace.advance(&mut context, progress, &library), Err(Error::Stream)));
    // what came before the bad bytes was learnt, and the bad bytes stay
    assert_eq!(context.knowledge_len(), 2);
    assert!(matches!(context.take_message_from_outbound(client), Err(Error::Stream)));
}

#[test]
fn progress_behind_the_last_step_is_done() {
    let (_, _, descriptors) = two_agents();
    let trace = Trace { descriptors, steps: vec![] };
    let library = BaseFunctions::new();
    let mut context = TraceContext::new();
    assert_eq!(
        trace.advance(&mut context, Progress::Start, &library).unwrap(),
        (Progress::Ready(0), Next::Done)
    );
    assert_eq!(
        trace.advance(&mut context, Progress::Waiting(3), &library).unwrap(),
        (Progress::Ready(3), Next::Done)
    );
    assert_eq!(
        trace.advance(&mut context, Progress::Ready(7), &library).unwrap(),
        (Progress::Ready(7), Next::Done)
    );
}

#[test]
fn traces_are_cloned_step_by_step() {
    let (client, server, descriptors) = two_agents();
    let trace = Trace {
        descriptors,
        steps: vec![output(client), input(server, constant(fn_change_cipher_spec()))],
    };
    let copy = trace.clone();
    assert_eq!(copy.descriptors, trace.descriptors);
    assert_eq!(copy.steps.len(), 2);
    assert_eq!(copy.steps[1].agent, server);
    assert!(matches!(copy.steps[0].action, Action::Output(_)));
    assert!(copy.is_well_typed());
    assert_eq!(copy.dot_graph(true), trace.dot_graph(true));
}

#[test]
fn names_only_looks_at_every_variable() {
    let (client, server, _) = two_agents();
    let of_client = Term::Variable(Variable::new(0, 0, type_shape(BYTES), client, None, 0));
    let of_server = Term::Variable(Variable::new(0, 0, type_shape(BYTES), server, None, 0));
    assert!(names_only(&of_client, &vec![client]));
    assert!(!names_only(&of_client, &vec![server]));
    assert!(!names_only(&of_client, &vec![]));
    assert!(names_only(&constant(fn_seq_0()), &vec![]));
    let both = apply(fn_application_data(), vec![apply(fn_opaque_message(), vec![of_client, of_server])]);
    assert!(names_only(&both, &vec![server, client]));
    assert!(!names_only(&both, &vec![client]));
}
