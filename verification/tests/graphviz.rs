use tlspuffin::agent::{AgentDescriptor, AgentName, TLSVersion};
use tlspuffin::fuzzer::seeds::seed_client_attacker12;
use tlspuffin::graphviz::plot;
use tlspuffin::term::atoms::{Function, Variable};
use tlspuffin::term::dynamic_function::{DynamicFunctionShape, TypeShape};
use tlspuffin::term::Term;
use tlspuffin::trace::{Action, InputAction, OutputAction, Step, TlsMessageType, Trace};

#[test]
fn test_dot_graph() {
    let server = AgentName::first();
    let trace = seed_client_attacker12(server);
    println!("{}", trace.dot_graph(true));
}

fn bytes() -> TypeShape {
    TypeShape::new(3, "alloc::vec::Vec<u8>")
}

fn message() -> TypeShape {
    TypeShape::new(1, "rustls::msgs::message::Message")
}

fn finished_of_variable() -> Term {
    let shape = DynamicFunctionShape::new(
        "tlspuffin::tls::fn_messages::fn_finished",
        vec![bytes()],
        message(),
    );
    let variable = Variable::new(
        3,
        4,
        bytes(),
        AgentName::first().next(),
        Some(TlsMessageType::Handshake(None)),
        2,
    );
    Term::Application(Function::new(7, 9, shape), vec![Term::Variable(variable)])
}

const INNER: &str = "[label=\"finished\",style=\"\",colorscheme=dark28,fillcolor=\"#00000000\",shape=\"none\"] [fontname=\"Latin Modern Roman\"];";
const LEAF: &str = "[label=\"(1,2)/Vec<u8>\",style=\"\",colorscheme=dark28,fillcolor=\"#00000000\",shape=\"none\"] [fontname=\"Latin Modern Roman\"];";

#[test]
fn unique_id_in_both_modes() {
    let term = finished_of_variable();
    assert_eq!(term.unique_id(true, 5), "f_5_7");
    assert_eq!(term.unique_id(false, 5), "f_9");
    if let Term::Application(_, arguments) = &term {
        assert_eq!(arguments[0].unique_id(true, 12), "v_12_3");
        assert_eq!(arguments[0].unique_id(false, 12), "v_4");
    }
}

#[test]
fn node_attributes_text() {
    assert_eq!(
        Term::node_attributes("a", "red", "box"),
        "[label=\"a\",style=\"\",colorscheme=dark28,fillcolor=\"red\",shape=\"box\"]"
    );
}

#[test]
fn collect_statements_in_tree_mode() {
    let term = finished_of_variable();
    let mut statements = vec!["before".to_string()];
    Term::collect_statements(&term, true, 5, &mut statements);
    assert_eq!(
        statements,
        vec![
            "before".to_string(),
            format!("f_5_7 {}", INNER),
            "f_5_7 -> v_5_3;".to_string(),
            format!("v_5_3 {}", LEAF),
        ]
    );
}

#[test]
fn collect_statements_in_graph_mode() {
    let term = finished_of_variable();
    let mut statements = Vec::new();
    Term::collect_statements(&term, false, 5, &mut statements);
    assert_eq!(
        statements,
        vec![format!("f_9 {}", INNER), "f_9 -> v_4;".to_string(), format!("v_4 {}", LEAF)]
    );
}

#[test]
fn dot_subgraph_text() {
    let term = finished_of_variable();
    assert_eq!(
        term.dot_subgraph(true, 5, "ignored"),
        format!(
            "subgraph cluster5 {{ peripheries=0;fontname=\"Latin Modern Roman\";label=\"\";\nf_5_7 {}\nf_5_7 -> v_5_3;\nv_5_3 {}\n}}",
            INNER, LEAF
        )
    );
}

fn small_trace() -> Trace {
    let agent = AgentName::first();
    Trace {
        descriptors: vec![AgentDescriptor { name: agent, tls_version: TLSVersion::V1_2, server: true }],
        steps: vec![
            Step { agent, action: Action::Output(OutputAction {}) },
            Step { agent, action: Action::Input(InputAction { recipe: finished_of_variable() }) },
        ],
    }
}

const OUTPUT_CLUSTER: &str = "subgraph cluster0 { peripheries=0;label=\"\";\"\" [color=\"#00000000\"];}";

#[test]
fn dot_subgraphs_one_per_step() {
    let trace = small_trace();
    let subgraphs = trace.dot_subgraphs(false);
    assert_eq!(subgraphs.len(), 2);
    assert_eq!(subgraphs[0], OUTPUT_CLUSTER);
    assert_eq!(subgraphs[1], finished_of_variable().dot_subgraph(false, 1, ""));
    assert!(subgraphs[1].starts_with("subgraph cluster1 { "));
}

#[test]
fn dot_graph_text() {
    let trace = small_trace();
    let expected = format!(
        "strict digraph \"Trace\" {{ splines=false;fontname=\"Latin Modern Roman\";{}\n{} }}",
        OUTPUT_CLUSTER,
        finished_of_variable().dot_subgraph(true, 1, "")
    );
    assert_eq!(trace.dot_graph(true), expected);
}

#[test]
fn dot_graph_of_empty_trace() {
    let trace = Trace { descriptors: vec![], steps: vec![] };
    assert_eq!(
        trace.dot_graph(true),
        "strict digraph \"Trace\" { splines=false;fontname=\"Latin Modern Roman\"; }"
    );
    assert!(trace.dot_subgraphs(true).is_empty());
}

#[test]
fn constants_are_drawn_as_leaves() {
    let shape = DynamicFunctionShape::new("tlspuffin::tls::fn_constants::fn_seq_0", vec![], TypeShape::new(4, "u64"));
    let term = Term::Application(Function::new(1, 2, shape), vec![]);
    let mut statements = Vec::new();
    Term::collect_statements(&term, true, 0, &mut statements);
    assert_eq!(
        statements,
        vec!["f_0_1 [label=\"seq_0\",style=\"\",colorscheme=dark28,fillcolor=\"#00000000\",shape=\"none\"] [fontname=\"Latin Modern Roman\"];".to_string()]
    );
}

#[test]
fn plot_names_the_file_and_draws_a_tree() {
    let trace = small_trace();
    let (name, script) = plot(&trace, 17);
    assert_eq!(name, "test_mutation17.svg");
    assert_eq!(script, trace.dot_graph(true));
    let (name, _) = plot(&trace, 0);
    assert_eq!(name, "test_mutation0.svg");
}

#[test]
fn seed_drawing_has_one_cluster_per_step() {
    let trace = seed_client_attacker12(AgentName::first());
    let subgraphs = trace.dot_subgraphs(true);
    assert_eq!(subgraphs.len(), 4);
    for (i, subgraph) in subgraphs.iter().enumerate() {
        assert!(subgraph.starts_with(&format!("subgraph cluster{} {{ ", i)));
        assert!(subgraph.ends_with("\n}"));
    }
    assert!(subgraphs[0].contains("label=\"client_hello\""));
    assert!(subgraphs[3].contains("label=\"encrypt12\""));
}
