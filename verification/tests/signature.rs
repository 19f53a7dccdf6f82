use tlspuffin::agent::AgentName;
use tlspuffin::term::dynamic_function::{DynamicFunctionShape, TypeShape};
use tlspuffin::term::signature::{Signature, UNTYPED};
use tlspuffin::trace::TlsMessageType;

fn shape(name: &str, arguments: usize) -> DynamicFunctionShape {
    DynamicFunctionShape::new(
        name,
        (0..arguments).map(|_| TypeShape::new(1, "t")).collect(),
        TypeShape::new(2, "r"),
    )
}

#[test]
fn new_function_gives_the_same_symbol_for_the_same_name() {
    let mut signature = Signature::new();
    let first = signature.new_function(&shape("f", 1));
    let other = signature.new_function(&shape("g", 0));
    let again = signature.new_function(&shape("f", 1));
    assert_eq!(first.unique_id, 0);
    assert_eq!(first.resistant_id, 0);
    assert_eq!(other.unique_id, 1);
    assert_eq!(again.unique_id, first.unique_id);
    assert_eq!(again.resistant_id, first.resistant_id);
    assert_eq!(signature.len(), 2);
    // the next new symbol goes on where the last one stopped
    let third = signature.new_function(&shape("h", 0));
    assert_eq!(third.unique_id, 2);
}

#[test]
fn a_registered_name_keeps_its_shape() {
    let mut signature = Signature::new();
    signature.new_function(&shape("f", 1));
    let again = signature.new_function(&shape("f", 3));
    assert_eq!(again.arity(), 1);
}

#[test]
fn find_and_get() {
    let mut signature = Signature::new();
    assert!(signature.find("f").is_none());
    assert!(signature.get(0).is_none());
    signature.new_function(&shape("f", 1));
    signature.new_function(&shape("g", 2));
    assert_eq!(signature.find("g").unwrap().unique_id, 1);
    assert_eq!(signature.get(0).unwrap().name(), "f");
    assert_eq!(signature.get(1).unwrap().arity(), 2);
    assert!(signature.get(2).is_none());
    assert!(signature.find("h").is_none());
}

#[test]
fn new_op_makes_untyped_operators() {
    let mut signature = Signature::default();
    let senc = signature.new_op(2, Some("senc".to_string()));
    assert_eq!(senc.name(), "senc");
    assert_eq!(senc.arity(), 2);
    assert_eq!(senc.shape().return_type.id, UNTYPED);
    assert!(senc.shape().argument_types.iter().all(|t| t.id == UNTYPED));
    let unnamed = signature.new_op(0, None);
    assert_eq!(unnamed.name(), "op1");
    assert_eq!(unnamed.unique_id, 1);
    let again = signature.new_op(5, Some("senc".to_string()));
    assert_eq!(again.unique_id, senc.unique_id);
    assert_eq!(again.arity(), 2);
}

#[test]
fn new_var_by_type_id_gives_fresh_ids_and_equal_variables() {
    let mut signature = Signature::new();
    let agent = AgentName::first();
    let kind = Some(TlsMessageType::Handshake(None));
    let one = signature.new_var_by_type_id(TypeShape::new(5, "t"), agent, kind, 0);
    let other = signature.new_var_by_type_id(TypeShape::new(5, "t"), agent, kind, 0);
    assert_eq!(one.unique_id, 0);
    assert_eq!(other.unique_id, 1);
    assert!(one == other);
    assert_eq!(one.counter, 0);
    assert_eq!(one.agent, agent);
    assert_eq!(one.message_type, kind);
    assert_eq!(one.typ.id, 5);
    // variables and functions share the ids
    let f = signature.new_function(&shape("f", 0));
    assert_eq!(f.unique_id, 2);
}
