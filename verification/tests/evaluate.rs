use tlspuffin::agent::AgentName;
use tlspuffin::error::{Error, FnError};
use tlspuffin::term::atoms::{Function, Variable};
use tlspuffin::term::dynamic_function::{make_dynamic, FunctionLibrary, TypeShape, Value};
use tlspuffin::term::Term;
use tlspuffin::tls::{
    fn_alert_close_notify, fn_application_data, fn_change_cipher_spec, fn_client_hello,
    fn_empty_bytes_vec, fn_opaque_message, fn_seq_0, fn_seq_1, type_shape, BaseFunctions, BYTES,
    NOT_COMPUTED, U64,
};
use tlspuffin::trace::{Knowledge, TlsMessageType, TraceContext, MESSAGE, OPAQUE_MESSAGE};

fn constant(shape: tlspuffin::term::dynamic_function::DynamicFunctionShape) -> Term {
    Term::Application(Function::new(0, 0, shape), vec![])
}

fn apply(shape: tlspuffin::term::dynamic_function::DynamicFunctionShape, arguments: Vec<Term>) -> Term {
    Term::Application(Function::new(0, 0, shape), arguments)
}

fn bytes_variable(agent: AgentName, kind: Option<TlsMessageType>, counter: u16) -> Term {
    Term::Variable(Variable::new(0, 0, type_shape(BYTES), agent, kind, counter))
}

fn know(context: &mut TraceContext, agent: AgentName, kind: Option<TlsMessageType>, typ: u64, data: &[u8]) {
    context.add_knowledge(Knowledge {
        agent_name: agent,
        tls_message_type: kind,
        data: Value::new(type_shape(typ), data.to_vec()),
    });
}

#[test]
fn constants_evaluate_to_their_bytes() {
    let context = TraceContext::new();
    let library = BaseFunctions::new();
    let value = constant(fn_empty_bytes_vec()).evaluate(&context, &library).unwrap();
    assert_eq!(value.shape.id, BYTES);
    assert!(value.data.is_empty());
    let value = constant(fn_seq_0()).evaluate(&context, &library).unwrap();
    assert_eq!(value.shape.id, U64);
    assert_eq!(value.data, vec![0; 8]);
    let value = constant(fn_seq_1()).evaluate(&context, &library).unwrap();
    assert_eq!(value.data, vec![0, 0, 0, 0, 0, 0, 0, 1]);
    let value = constant(tlspuffin::tls::fn_seq_2()).evaluate(&context, &library).unwrap();
    assert_eq!(value.data, vec![0, 0, 0, 0, 0, 0, 0, 2]);
    let value = constant(tlspuffin::tls::fn_seq_3()).evaluate(&context, &library).unwrap();
    assert_eq!(value.data, vec![0, 0, 0, 0, 0, 0, 0, 3]);
    let value = constant(fn_change_cipher_spec()).evaluate(&context, &library).unwrap();
    assert_eq!(value.shape.id, MESSAGE);
    assert_eq!(value.data, vec![0x14, 0x03, 0x03, 0x00, 0x01, 0x01]);
    let value = constant(fn_alert_close_notify()).evaluate(&context, &library).unwrap();
    assert_eq!(value.data, vec![0x15, 0x03, 0x03, 0x00, 0x02, 0x01, 0x00]);
}

#[test]
fn applications_evaluate_their_arguments_first() {
    let mut context = TraceContext::new();
    let agent = AgentName::first();
    know(&mut context, agent, None, BYTES, &[7, 8, 9]);
    let library = BaseFunctions::new();
    let term = apply(fn_application_data(), vec![bytes_variable(agent, None, 0)]);
    let value = term.evaluate(&context, &library).unwrap();
    assert_eq!(value.shape.id, MESSAGE);
    assert_eq!(value.data, vec![0x17, 0x03, 0x03, 0x00, 0x03, 7, 8, 9]);
}

#[test]
fn opaque_message_is_handed_through() {
    let mut context = TraceContext::new();
    let agent = AgentName::first();
    know(&mut context, agent, None, OPAQUE_MESSAGE, &[0x16, 3, 3, 0, 1, 5]);
    let library = BaseFunctions::new();
    let variable = Term::Variable(Variable::new(0, 0, type_shape(OPAQUE_MESSAGE), agent, None, 0));
    let value = apply(fn_opaque_message(), vec![variable]).evaluate(&context, &library).unwrap();
    assert_eq!(value.shape.id, OPAQUE_MESSAGE);
    assert_eq!(value.data, vec![0x16, 3, 3, 0, 1, 5]);
}

#[test]
fn unknown_variable_is_missing() {
    let context = TraceContext::new();
    let library = BaseFunctions::new();
    let result = bytes_variable(AgentName::first(), None, 0).evaluate(&context, &library);
    assert!(matches!(result, Err(Error::Missing)));
}

#[test]
fn the_first_failing_argument_decides() {
    let context = TraceContext::new();
    let library = BaseFunctions::new();
    // the first argument is missing, the second is not computed
    let shape = tlspuffin::tls::fn_append_transcript();
    let term = apply(
        shape,
        vec![
            Term::Variable(Variable::new(0, 0, type_shape(tlspuffin::tls::TRANSCRIPT), AgentName::first(), None, 0)),
            constant(tlspuffin::tls::fn_server_hello_done()),
        ],
    );
    assert!(matches!(term.evaluate(&context, &library), Err(Error::Missing)));
    // the other way round
    let shape = tlspuffin::tls::fn_append_transcript();
    let term = apply(
        shape,
        vec![
            constant(tlspuffin::tls::fn_new_transcript12()),
            Term::Variable(Variable::new(0, 0, type_shape(MESSAGE), AgentName::first(), None, 0)),
        ],
    );
    assert!(matches!(
        term.evaluate(&context, &library),
        Err(Error::Function(FnError::Unknown(reason))) if reason == NOT_COMPUTED
    ));
}

#[test]
fn functions_that_are_not_computed_report_it() {
    let context = TraceContext::new();
    let library = BaseFunctions::new();
    let term = constant(tlspuffin::tls::fn_new_random());
    assert!(matches!(
        term.evaluate(&context, &library),
        Err(Error::Function(FnError::Unknown(reason))) if reason == NOT_COMPUTED
    ));
}

#[test]
fn ill_typed_applications_are_type_errors() {
    let context = TraceContext::new();
    let library = BaseFunctions::new();
    // too few arguments
    let term = apply(fn_application_data(), vec![]);
    assert!(matches!(term.evaluate(&context, &library), Err(Error::Type)));
    // an argument of another type
    let term = apply(fn_application_data(), vec![constant(fn_seq_0())]);
    assert!(matches!(term.evaluate(&context, &library), Err(Error::Type)));
}

#[test]
fn dynamic_call_checks_the_number_of_arguments() {
    let library = BaseFunctions::new();
    let function = Function::new(0, 0, fn_client_hello());
    let dynamic = make_dynamic(&library, &function);
    assert_eq!(dynamic.shape().arity(), 6);
    let arguments = vec![Value::new(type_shape(BYTES), vec![])];
    assert!(matches!(dynamic.call(&arguments), Err(FnError::WrongArity(6, 1))));
    let function = Function::new(0, 0, fn_seq_0());
    let dynamic = make_dynamic(&library, &function);
    assert!(matches!(dynamic.call(&arguments), Err(FnError::WrongArity(0, 1))));
}

#[test]
fn dynamic_call_names_the_first_argument_of_a_wrong_type() {
    let library = BaseFunctions::new();
    let function = Function::new(0, 0, tlspuffin::tls::fn_encrypt12());
    let dynamic = make_dynamic(&library, &function);
    let arguments = vec![
        Value::new(type_shape(MESSAGE), vec![]),
        Value::new(type_shape(BYTES), vec![]),
        Value::new(type_shape(U64), vec![]),
        Value::new(type_shape(U64), vec![]),
    ];
    match dynamic.call(&arguments) {
        Err(FnError::TypeMismatch(index, expected, actual)) => {
            assert_eq!(index, 1);
            assert_eq!(expected.id, tlspuffin::tls::RANDOM);
            assert_eq!(expected.name(), "rustls::msgs::handshake::Random");
            assert_eq!(actual.id, BYTES);
        }
        other => panic!("unexpected: {:?}", other),
    }
}

#[test]
fn dynamic_call_agrees_with_the_function_itself() {
    let library = BaseFunctions::new();
    let function = Function::new(0, 0, fn_application_data());
    let arguments = vec![Value::new(type_shape(BYTES), vec![1, 2])];
    let dynamic = make_dynamic(&library, &function).call(&arguments).unwrap();
    let direct = library.call(&function, &arguments).unwrap();
    assert_eq!(dynamic.shape.id, direct.shape.id);
    assert_eq!(dynamic.data, direct.data);
    assert_eq!(direct.data, vec![0x17, 0x03, 0x03, 0x00, 0x02, 1, 2]);
}

#[test]
fn evaluation_is_deterministic() {
    let mut context = TraceContext::new();
    let agent = AgentName::first();
    know(&mut context, agent, None, BYTES, &[1]);
    let library = BaseFunctions::new();
    let term = apply(fn_application_data(), vec![bytes_variable(agent, None, 0)]);
    let first = term.evaluate(&context, &library).unwrap();
    let second = term.evaluate(&context, &library).unwrap();
    assert_eq!(first.shape.id, second.shape.id);
    assert_eq!(first.data, second.data);
    let missing = bytes_variable(agent, None, 1);
    assert!(matches!(missing.evaluate(&context, &library), Err(Error::Missing)));
    assert!(matches!(missing.evaluate(&context, &library), Err(Error::Missing)));
}

#[test]
fn a_clone_evaluates_like_the_term() {
    let mut context = TraceContext::new();
    let agent = AgentName::first();
    know(&mut context, agent, None, BYTES, &[4, 5]);
    let library = BaseFunctions::new();
    let term = apply(fn_application_data(), vec![bytes_variable(agent, None, 0)]);
    let copy = term.clone();
    let one = term.evaluate(&context, &library).unwrap();
    let other = copy.evaluate(&context, &library).unwrap();
    assert_eq!(one.shape.id, other.shape.id);
    assert_eq!(one.data, other.data);
}

#[test]
fn variables_count_the_answers_to_their_question() {
    let mut context = TraceContext::new();
    let client = AgentName::first();
    let server = client.next();
    let hello = Some(TlsMessageType::Handshake(Some(tlspuffin::trace::HandshakeType::ClientHello)));
    let done = Some(TlsMessageType::Handshake(Some(tlspuffin::trace::HandshakeType::ServerHelloDone)));
    let data = Some(TlsMessageType::ApplicationData);
    know(&mut context, client, hello, BYTES, &[0]);
    know(&mut context, server, hello, BYTES, &[1]);
    know(&mut context, client, data, BYTES, &[2]);
    know(&mut context, client, hello, U64, &[3]);
    know(&mut context, client, done, BYTES, &[4]);
    know(&mut context, client, None, BYTES, &[5]);
    let library = BaseFunctions::new();
    let value = |kind, counter| {
        bytes_variable(client, kind, counter).evaluate(&context, &library).map(|value| value.data)
    };
    // without a filter every value of the agent and the type counts
    assert_eq!(value(None, 0).unwrap(), vec![0]);
    assert_eq!(value(None, 1).unwrap(), vec![2]);
    assert_eq!(value(None, 2).unwrap(), vec![4]);
    assert_eq!(value(None, 3).unwrap(), vec![5]);
    assert!(matches!(value(None, 4), Err(Error::Missing)));
    // a handshake filter without a kind passes every handshake message
    let any = Some(TlsMessageType::Handshake(None));
    assert_eq!(value(any, 0).unwrap(), vec![0]);
    assert_eq!(value(any, 1).unwrap(), vec![4]);
    assert!(matches!(value(any, 2), Err(Error::Missing)));
    // any other filter asks for its own kind
    assert_eq!(value(done, 0).unwrap(), vec![4]);
    assert!(matches!(value(done, 1), Err(Error::Missing)));
    assert_eq!(value(data, 0).unwrap(), vec![2]);
    assert!(matches!(value(Some(TlsMessageType::Alert), 0), Err(Error::Missing)));
}

#[test]
fn knowledge_is_numbered_without_gaps() {
    let mut context = TraceContext::new();
    let agent = AgentName::first();
    let library = BaseFunctions::new();
    for n in 0..5u8 {
        // what was not there before is not found, what was found stays
        assert!(matches!(
            bytes_variable(agent, None, n as u16).evaluate(&context, &library),
            Err(Error::Missing)
        ));
        know(&mut context, agent, None, BYTES, &[n]);
        for earlier in 0..=n {
            let value = bytes_variable(agent, None, earlier as u16).evaluate(&context, &library);
            assert_eq!(value.unwrap().data, vec![earlier]);
        }
    }
    assert_eq!(context.knowledge_len(), 5);
    assert_eq!(context.knowledge_at(4).unwrap().data.data, vec![4]);
    assert!(context.knowledge_at(5).is_none());
}

#[test]
fn find_variable_hands_out_the_stored_value() {
    let mut context = TraceContext::new();
    let agent = AgentName::first();
    know(&mut context, agent, None, BYTES, &[1, 2]);
    let variable = Variable::new(0, 0, TypeShape::new(BYTES, "other name"), agent, None, 0);
    assert_eq!(context.find_variable(&variable).unwrap().data, vec![1, 2]);
    let variable = Variable::new(0, 0, type_shape(U64), agent, None, 0);
    assert!(context.find_variable(&variable).is_none());
}

#[test]
fn base_functions_note_nothing_in_a_message() {
    let library = BaseFunctions::new();
    let record = tlspuffin::io::OpaqueMessage::new(0x17, 0x0303, vec![1]);
    let message = record.parse().unwrap();
    assert!(library.extract_knowledge(&message).is_empty());
}
