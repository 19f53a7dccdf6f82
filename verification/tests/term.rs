use tlspuffin::agent::AgentName;
use tlspuffin::error::Error;
use tlspuffin::term::atoms::{Function, Variable};
use tlspuffin::term::dynamic_function::{DynamicFunctionShape, TypeShape};
use tlspuffin::term::signature::Signature;
use tlspuffin::term::Term;

#[test]
fn example() {
    let mut sig = Signature::default();
    let app = sig.new_op(2, Some("senc".to_string()));
    let s = sig.new_op(0, Some("s".to_string()));
    let k = sig.new_op(0, Some("k".to_string()));

    let constructed_term = Term::Application(
        app.clone(),
        vec![
            Term::Application(
                app.clone(),
                vec![
                    Term::Application(
                        app.clone(),
                        vec![
                            Term::Application(s.clone(), vec![]),
                            Term::Application(k.clone(), vec![]),
                        ],
                    ),
                    Term::Application(k.clone(), vec![]),
                ],
            ),
            Term::Application(
                app.clone(),
                vec![
                    Term::Application(
                        app.clone(),
                        vec![
                            Term::Application(k.clone(), vec![]),
                            Term::Application(s.clone(), vec![]),
                        ],
                    ),
                    Term::Application(k, vec![]),
                ],
            ),
        ],
    );

    println!("{}", constructed_term.pretty());
}

fn typ(id: u64) -> TypeShape {
    TypeShape::new(id, "t")
}

fn function(id: u32, name: &str, arguments: Vec<u64>, result: u64) -> Function {
    Function::new(
        id,
        id + 100,
        DynamicFunctionShape::new(name, arguments.into_iter().map(typ).collect(), typ(result)),
    )
}

fn constant(id: u32, name: &str, result: u64) -> Term {
    Term::Application(function(id, name, vec![], result), vec![])
}

fn variable(id: u32, result: u64) -> Term {
    Term::Variable(Variable::new(id, id, typ(result), AgentName::first(), None, 0))
}

/// f(g(a, x), b) with f: (1, 2) -> 3, g: (4, 5) -> 1, a: 4, x: 5, b: 2
fn sample() -> Term {
    Term::Application(
        function(0, "m::f", vec![1, 2], 3),
        vec![
            Term::Application(
                function(1, "m::g", vec![4, 5], 1),
                vec![constant(2, "m::a", 4), variable(3, 5)],
            ),
            constant(4, "m::b", 2),
        ],
    )
}

fn root_id(term: &Term) -> u32 {
    match term {
        Term::Variable(variable) => variable.unique_id,
        Term::Application(function, _) => function.unique_id,
    }
}

#[test]
fn size_counts_nodes() {
    assert_eq!(sample().size(), 5);
    assert_eq!(constant(0, "c", 1).size(), 1);
    assert_eq!(variable(0, 1).size(), 1);
}

#[test]
fn traverse_is_preorder() {
    let term = sample();
    let ids: Vec<u32> = term.traverse_from_root().into_iter().map(root_id).collect();
    assert_eq!(ids, vec![0, 1, 2, 3, 4]);
    // the traversal can be started again
    assert_eq!(term.traverse_from_root().len(), 5);
}

#[test]
fn paths_are_in_preorder() {
    let term = sample();
    assert_eq!(
        term.paths(),
        vec![vec![], vec![0], vec![0, 0], vec![0, 1], vec![1]]
    );
    for (path, node) in term.paths().iter().zip(term.traverse_from_root()) {
        assert_eq!(root_id(term.get_at_path(path).unwrap()), root_id(node));
    }
}

#[test]
fn get_at_path_follows_child_indices() {
    let term = sample();
    assert_eq!(root_id(term.get_at_path(&vec![]).unwrap()), 0);
    assert_eq!(root_id(term.get_at_path(&vec![0, 1]).unwrap()), 3);
    assert_eq!(root_id(term.get_at_path(&vec![1]).unwrap()), 4);
    assert!(term.get_at_path(&vec![2]).is_none());
    assert!(term.get_at_path(&vec![1, 0]).is_none());
    assert!(term.get_at_path(&vec![0, 1, 0]).is_none());
}

#[test]
fn type_shape_of_root() {
    assert_eq!(sample().get_type_shape().id, 3);
    assert_eq!(variable(0, 9).get_type_shape().id, 9);
}

#[test]
fn well_typedness_is_checked_all_the_way_down() {
    assert!(sample().is_well_typed());
    assert!(variable(0, 1).is_well_typed());
    // wrong number of arguments
    let short = Term::Application(function(0, "f", vec![1, 2], 3), vec![variable(1, 1)]);
    assert!(!short.is_well_typed());
    // wrong type of an argument
    let wrong = Term::Application(function(0, "f", vec![1], 3), vec![variable(1, 2)]);
    assert!(!wrong.is_well_typed());
    // an ill-typed argument of the right type
    let deep = Term::Application(
        function(0, "f", vec![3], 3),
        vec![Term::Application(function(0, "f", vec![1], 3), vec![variable(1, 2)])],
    );
    assert!(!deep.is_well_typed());
}

#[test]
fn replace_at_path_exchanges_one_subterm() {
    let mut term = sample();
    assert!(term.replace_at_path(&vec![0, 0], constant(9, "m::c", 4)).is_ok());
    let ids: Vec<u32> = term.traverse_from_root().into_iter().map(root_id).collect();
    assert_eq!(ids, vec![0, 1, 9, 3, 4]);
    assert!(term.is_well_typed());
    // a larger subterm for a smaller one
    let mut term = sample();
    let replacement = Term::Application(function(7, "m::h", vec![5], 2), vec![variable(8, 5)]);
    assert!(term.replace_at_path(&vec![1], replacement).is_ok());
    let ids: Vec<u32> = term.traverse_from_root().into_iter().map(root_id).collect();
    assert_eq!(ids, vec![0, 1, 2, 3, 7, 8]);
    assert!(term.is_well_typed());
}

#[test]
fn replace_at_root() {
    let mut term = sample();
    assert!(term.replace_at_path(&vec![], constant(9, "m::c", 3)).is_ok());
    assert_eq!(term.size(), 1);
    assert_eq!(root_id(&term), 9);
}

#[test]
fn replace_at_path_refuses_another_type() {
    let mut term = sample();
    let result = term.replace_at_path(&vec![0, 0], constant(9, "m::c", 5));
    assert!(matches!(result, Err(Error::Type)));
    let ids: Vec<u32> = term.traverse_from_root().into_iter().map(root_id).collect();
    assert_eq!(ids, vec![0, 1, 2, 3, 4]);
}

#[test]
fn replace_at_path_refuses_a_path_to_nowhere() {
    let mut term = sample();
    let result = term.replace_at_path(&vec![0, 2], constant(9, "m::c", 4));
    assert!(matches!(result, Err(Error::Missing)));
    assert_eq!(term.size(), 5);
}

#[test]
fn clone_is_deep_and_keeps_ids() {
    let term = sample();
    let mut copy = term.clone();
    let ids: Vec<u32> = copy.traverse_from_root().into_iter().map(root_id).collect();
    assert_eq!(ids, vec![0, 1, 2, 3, 4]);
    if let (Term::Application(f, _), Term::Application(g, _)) = (&term, &copy) {
        assert_eq!(f.resistant_id, g.resistant_id);
        assert_eq!(f.name(), g.name());
    }
    copy.replace_at_path(&vec![1], constant(9, "m::c", 2)).unwrap();
    assert_eq!(root_id(term.get_at_path(&vec![1]).unwrap()), 4);
}

#[test]
fn pretty_writes_one_symbol_per_line() {
    assert_eq!(sample().pretty(), "f(\n\tg(\n\t\ta,\n\t\t(0,0)/t\n\t),\n\tb\n)");
    assert_eq!(constant(0, "x::y::c", 1).pretty(), "c");
}

#[test]
fn pretty_of_the_example_term() {
    let mut sig = Signature::default();
    let app = sig.new_op(2, Some("senc".to_string()));
    let s = sig.new_op(0, Some("s".to_string()));
    let term = Term::Application(
        app,
        vec![Term::Application(s.clone(), vec![]), Term::Application(s, vec![])],
    );
    assert_eq!(term.pretty(), "senc(\n\ts,\n\ts\n)");
    assert!(term.is_well_typed());
}

#[test]
fn variable_text_shows_agent_counter_and_type() {
    let variable = Variable::new(
        0,
        0,
        TypeShape::new(6, "rustls::msgs::handshake::Random"),
        AgentName::first().next(),
        None,
        12,
    );
    assert_eq!(variable.to_text(), "(1,12)/Random");
}

#[test]
fn variables_are_equal_by_what_they_ask_for() {
    let one = Variable::new(1, 2, typ(5), AgentName::first(), None, 3);
    let other = Variable::new(8, 9, typ(5), AgentName::first(), None, 3);
    assert!(one == other);
    let later = Variable::new(1, 2, typ(5), AgentName::first(), None, 4);
    assert!(one != later);
    let elsewhere = Variable::new(1, 2, typ(5), AgentName::first().next(), None, 3);
    assert!(one != elsewhere);
    let retyped = Variable::new(1, 2, typ(6), AgentName::first(), None, 3);
    assert!(one != retyped);
}

#[test]
fn type_shapes_are_equal_by_id() {
    assert!(TypeShape::new(1, "a") == TypeShape::new(1, "b"));
    assert!(TypeShape::new(1, "a") != TypeShape::new(2, "a"));
    assert_eq!(TypeShape::new(1, "a").name(), "a");
}

#[test]
fn functions_are_the_same_symbol_by_name() {
    assert!(function(1, "f", vec![], 1).same_symbol(&function(2, "f", vec![1], 2)));
    assert!(!function(1, "f", vec![], 1).same_symbol(&function(1, "g", vec![], 1)));
    assert_eq!(function(1, "f", vec![1, 2], 1).arity(), 2);
    assert!(function(1, "f", vec![], 1).shape().is_constant());
}
