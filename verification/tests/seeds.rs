use tlspuffin::agent::{AgentDescriptor, AgentName, TLSVersion};
use tlspuffin::fuzzer::libafl_setup::{cores, should_log, MAX_ITERATIONS_PER_STAGE, MAX_MUTATIONS_PER_ITERATION};
use tlspuffin::fuzzer::seeds::{
    seed_client_attacker, seed_client_attacker12, seed_successful, seed_successful12,
};
use tlspuffin::term::Term;
use tlspuffin::tls::{all_shapes, signature, type_shape, BYTES};
use tlspuffin::trace::{Action, HandshakeType, Step, TlsMessageType, Trace, MESSAGE, OPAQUE_MESSAGE};

fn root_name(step: &Step) -> Option<String> {
    match &step.action {
        Action::Input(input) => match &input.recipe {
            Term::Application(function, _) => Some(function.name().to_string()),
            Term::Variable(_) => Some(String::new()),
        },
        Action::Output(_) => None,
    }
}

fn agents_of_variables(trace: &Trace) -> Vec<AgentName> {
    let mut agents = Vec::new();
    for step in &trace.steps {
        if let Action::Input(input) = &step.action {
            for node in input.recipe.traverse_from_root() {
                if let Term::Variable(variable) = node {
                    agents.push(variable.agent);
                }
            }
        }
    }
    agents
}

#[test]
fn client_attacker12_sends_four_messages_to_the_server() {
    let server = AgentName::first();
    let trace = seed_client_attacker12(server);
    assert_eq!(
        trace.descriptors,
        vec![AgentDescriptor { name: server, tls_version: TLSVersion::V1_2, server: true }]
    );
    let names: Vec<Option<String>> = trace.steps.iter().map(root_name).collect();
    assert_eq!(
        names,
        vec![
            Some("tlspuffin::tls::fn_messages::fn_client_hello".to_string()),
            Some("tlspuffin::tls::fn_messages::fn_client_key_exchange".to_string()),
            Some("tlspuffin::tls::fn_messages::fn_change_cipher_spec".to_string()),
            Some("tlspuffin::tls::fn_utils::fn_encrypt12".to_string()),
        ]
    );
    assert!(trace.steps.iter().all(|step| step.agent == server));
    assert!(trace.is_well_typed());
    assert!(agents_of_variables(&trace).iter().all(|agent| *agent == server));
    if let Action::Input(input) = &trace.steps[0].action {
        assert_eq!(input.recipe.size(), 22);
        assert_eq!(input.recipe.get_type_shape().id, MESSAGE);
    }
    if let Action::Input(input) = &trace.steps[3].action {
        assert_eq!(input.recipe.get_type_shape().id, OPAQUE_MESSAGE);
    }
}

#[test]
fn client_attacker12_names_its_symbols_apart() {
    let trace = seed_client_attacker12(AgentName::first());
    if let Action::Input(input) = &trace.steps[0].action {
        let mut ids: Vec<u32> = input
            .recipe
            .traverse_from_root()
            .into_iter()
            .map(|node| match node {
                Term::Variable(variable) => variable.unique_id,
                Term::Application(function, _) => function.unique_id,
            })
            .collect();
        let count = ids.len();
        ids.sort();
        ids.dedup();
        assert_eq!(ids.len(), count);
    }
}

#[test]
fn client_attacker12_asks_for_the_messages_of_the_server() {
    let server = AgentName::first().next();
    let trace = seed_client_attacker12(server);
    let mut asked = Vec::new();
    if let Action::Input(input) = &trace.steps[3].action {
        for node in input.recipe.traverse_from_root() {
            if let Term::Variable(variable) = node {
                if variable.typ.id == MESSAGE {
                    asked.push(variable.message_type);
                }
                assert_eq!(variable.agent, server);
                assert_eq!(variable.counter, 0);
            }
        }
    }
    assert_eq!(
        asked,
        vec![
            Some(TlsMessageType::Handshake(Some(HandshakeType::ServerHello))),
            Some(TlsMessageType::Handshake(Some(HandshakeType::Certificate))),
            Some(TlsMessageType::Handshake(Some(HandshakeType::ServerKeyExchange))),
            Some(TlsMessageType::Handshake(Some(HandshakeType::ServerHelloDone))),
        ]
    );
}

#[test]
fn successful_hands_every_message_on() {
    let client = AgentName::first();
    let server = client.next();
    let trace = seed_successful(client, server);
    assert_eq!(
        trace.descriptors,
        vec![
            AgentDescriptor { name: client, tls_version: TLSVersion::V1_3, server: false },
            AgentDescriptor { name: server, tls_version: TLSVersion::V1_3, server: true },
        ]
    );
    assert_eq!(trace.steps.len(), 14);
    assert!(trace.is_well_typed());
    assert!(matches!(trace.steps[0].action, Action::Output(_)));
    assert_eq!(trace.steps[0].agent, client);
    assert_eq!(root_name(&trace.steps[1]).unwrap(), "tlspuffin::tls::fn_messages::fn_client_hello");
    assert_eq!(trace.steps[1].agent, server);
    assert_eq!(root_name(&trace.steps[3]).unwrap(), "tlspuffin::tls::fn_messages::fn_server_hello");
    assert_eq!(trace.steps[3].agent, client);
    if let Action::Input(input) = &trace.steps[1].action {
        assert_eq!(input.recipe.size(), 7);
    }
    // the encrypted messages of the server are asked for one after the other
    for (step, counter) in [(5, 0), (6, 1), (7, 2), (8, 3)] {
        if let Action::Input(input) = &trace.steps[step].action {
            match input.recipe.get_at_path(&vec![0]).unwrap() {
                Term::Variable(variable) => {
                    assert_eq!(variable.counter, counter);
                    assert_eq!(variable.agent, server);
                    assert_eq!(variable.typ.id, BYTES);
                    assert_eq!(variable.message_type, Some(TlsMessageType::ApplicationData));
                }
                _ => panic!("no variable"),
            }
        } else {
            panic!("no input step");
        }
    }
    let agents = agents_of_variables(&trace);
    assert!(agents.iter().all(|agent| *agent == client || *agent == server));
}

#[test]
fn successful12_hands_every_message_on() {
    let client = AgentName::first();
    let server = client.next();
    let trace = seed_successful12(client, server);
    assert_eq!(trace.descriptors.len(), 2);
    assert!(trace.descriptors.iter().all(|d| d.tls_version == TLSVersion::V1_2));
    assert_eq!(trace.steps.len(), 15);
    assert!(trace.is_well_typed());
    let names: Vec<Option<String>> = trace.steps.iter().map(root_name).collect();
    let short: Vec<Option<&str>> = names
        .iter()
        .map(|name| name.as_deref().map(|name| name.rsplit("::").next().unwrap()))
        .collect();
    assert_eq!(
        short,
        vec![
            None,
            Some("fn_client_hello"),
            None,
            Some("fn_server_hello"),
            Some("fn_certificate"),
            Some("fn_server_key_exchange"),
            Some("fn_server_hello_done"),
            None,
            Some("fn_client_key_exchange"),
            Some("fn_change_cipher_spec"),
            Some("fn_opaque_message"),
            None,
            Some("fn_change_cipher_spec"),
            Some("fn_opaque_message"),
            None,
        ]
    );
    // the finished messages go as the records they were sent in
    for (step, agent, counter) in [(10, client, 3), (13, server, 5)] {
        if let Action::Input(input) = &trace.steps[step].action {
            match input.recipe.get_at_path(&vec![0]).unwrap() {
                Term::Variable(variable) => {
                    assert_eq!(variable.agent, agent);
                    assert_eq!(variable.counter, counter);
                    assert_eq!(variable.typ.id, OPAQUE_MESSAGE);
                    assert_eq!(variable.message_type, None);
                }
                _ => panic!("no variable"),
            }
        }
    }
}

#[test]
fn seeds_are_made_the_same_way_every_time() {
    let client = AgentName::first();
    let server = client.next();
    assert_eq!(
        seed_client_attacker12(server).dot_graph(true),
        seed_client_attacker12(server).dot_graph(true)
    );
    assert_eq!(
        seed_successful(client, server).dot_graph(false),
        seed_successful(client, server).dot_graph(false)
    );
    assert_eq!(
        seed_successful12(client, server).dot_graph(true),
        seed_successful12(client, server).dot_graph(true)
    );
}

#[test]
fn the_signature_holds_every_shape_once() {
    let shapes = all_shapes();
    let signature = signature();
    assert_eq!(signature.len(), shapes.len());
    for (index, shape) in shapes.iter().enumerate() {
        let function = signature.get(index).unwrap();
        assert_eq!(function.name(), shape.name);
        assert_eq!(function.arity(), shape.arity());
        assert_eq!(function.unique_id as usize, index);
        assert!(shape.name.starts_with("tlspuffin::tls::fn_"));
    }
    let hello = signature.find("tlspuffin::tls::fn_messages::fn_client_hello").unwrap();
    assert_eq!(hello.arity(), 6);
    assert_eq!(hello.shape().return_type.id, MESSAGE);
    assert_eq!(hello.shape().return_type.name(), "rustls::msgs::message::Message");
    assert_eq!(type_shape(BYTES).name(), "alloc::vec::Vec<u8>");
    assert_eq!(type_shape(1000).name(), "unknown");
}

#[test]
fn status_messages_are_shown_in_pairs_every_thousand() {
    assert!(should_log(0));
    assert!(should_log(1));
    assert!(!should_log(2));
    assert!(!should_log(999));
    assert!(should_log(1000));
    assert!(should_log(1001));
    assert!(!should_log(1002));
    assert!(should_log(5000));
    assert!(!should_log(usize::MAX));
    assert_eq!(MAX_ITERATIONS_PER_STAGE, 256);
    assert_eq!(MAX_MUTATIONS_PER_ITERATION, 16);
}

#[test]
fn workers_are_bound_to_the_first_cores() {
    assert_eq!(cores(0), Vec::<usize>::new());
    assert_eq!(cores(1), vec![0]);
    assert_eq!(cores(4), vec![0, 1, 2, 3]);
}

#[test]
fn client_attacker_sends_hello_and_finished() {
    let server = AgentName::first();
    let trace = seed_client_attacker(server);
    assert_eq!(
        trace.descriptors,
        vec![AgentDescriptor { name: server, tls_version: TLSVersion::V1_3, server: true }]
    );
    let names: Vec<Option<String>> = trace.steps.iter().map(root_name).collect();
    assert_eq!(
        names,
        vec![
            Some("tlspuffin::tls::fn_messages::fn_client_hello".to_string()),
            Some("tlspuffin::tls::fn_utils::fn_encrypt_handshake".to_string()),
        ]
    );
    assert!(trace.is_well_typed());
    assert!(trace.is_closed());
    if let Action::Input(input) = &trace.steps[0].action {
        assert_eq!(input.recipe.size(), 17);
    }
    // the four encrypted records of the server are asked for in order
    let mut counters = Vec::new();
    if let Action::Input(input) = &trace.steps[1].action {
        for node in input.recipe.traverse_from_root() {
            if let Term::Variable(variable) = node {
                assert_eq!(variable.agent, server);
                if variable.message_type == Some(TlsMessageType::ApplicationData) {
                    counters.push(variable.counter);
                }
            }
        }
    }
    assert_eq!(counters, vec![0, 1, 2, 3]);
}

#[test]
fn seeds_speak_of_their_own_agents_only() {
    let client = AgentName::first();
    let server = client.next();
    assert!(seed_client_attacker12(server).is_closed());
    assert!(seed_successful(client, server).is_closed());
    assert!(seed_successful12(client, server).is_closed());
    // a trace that has lost an agent is not closed any more
    let mut trace = seed_successful(client, server);
    trace.descriptors.pop();
    assert!(!trace.is_closed());
    assert!(trace.is_well_typed());
    let mut trace = seed_successful(client, server);
    trace.descriptors.clear();
    assert!(!trace.is_closed());
    // a trace without variables is closed whatever its agents are
    let empty = Trace { descriptors: vec![], steps: vec![] };
    assert!(empty.is_closed());
}
