//! The symbols that terms are made of.

use crate::agent::AgentName;
use crate::term::dynamic_function::{DynamicFunctionShape, ShapeModel, TypeShape};
use crate::trace::TlsMessageType;
use vstd::prelude::*;
use vstd::std_specs::cmp::PartialEqSpecImpl;

verus! {

/// A function symbol.
///
/// `unique_id` tells the occurrences of symbols in one tree apart when the
/// tree is drawn; `resistant_id` stays with the symbol when terms are copied.
#[derive(Debug)]
pub struct Function {
    pub unique_id: u32,
    pub resistant_id: u32,
    pub shape: DynamicFunctionShape,
}

/// What a [`Function`] says, as plain mathematics.
pub struct FunctionModel {
    pub unique_id: u32,
    pub resistant_id: u32,
    pub shape: ShapeModel,
}

impl FunctionModel {
    pub open spec fn arity(self) -> nat {
        self.shape.arity()
    }

    pub open spec fn name(self) -> Seq<char> {
        self.shape.name
    }
}

impl View for Function {
    type V = FunctionModel;

    open spec fn view(&self) -> FunctionModel {
        FunctionModel {
            unique_id: self.unique_id,
            resistant_id: self.resistant_id,
            shape: self.shape@,
        }
    }
}

impl Function {
    pub fn new(unique_id: u32, resistant_id: u32, shape: DynamicFunctionShape) -> (r: Function)
        ensures
            r@.unique_id == unique_id,
            r@.resistant_id == resistant_id,
            r@.shape == shape@,
    {
        Function { unique_id, resistant_id, shape }
    }

    pub fn name(&self) -> (r: &str)
        ensures
            r@ == self@.name(),
    {
        self.shape.name.as_str()
    }

    pub fn arity(&self) -> (r: usize)
        ensures
            r == self@.arity(),
    {
        self.shape.arity()
    }

    pub fn shape(&self) -> (r: &DynamicFunctionShape)
        ensures
            r == &self.shape,
    {
        &self.shape
    }

    /// Whether both are the same symbol, that is, carry the same name.
    pub fn same_symbol(&self, other: &Function) -> (r: bool)
        ensures
            r == (self@.name() == other@.name()),
    {
        self.shape.name == other.shape.name
    }
}

impl Clone for Function {
    fn clone(&self) -> (r: Function)
        ensures
            r@ == self@,
    {
        Function {
            unique_id: self.unique_id,
            resistant_id: self.resistant_id,
            shape: self.shape.clone(),
        }
    }
}

/// A variable symbol: the `counter`-th value of type `typ` that `agent` has
/// produced, among the messages that pass the filter `message_type`.
#[derive(Debug)]
pub struct Variable {
    pub unique_id: u32,
    pub resistant_id: u32,
    pub typ: TypeShape,
    pub agent: AgentName,
    pub message_type: Option<TlsMessageType>,
    pub counter: u16,
}

impl Variable {
    pub fn new(
        unique_id: u32,
        resistant_id: u32,
        typ: TypeShape,
        agent: AgentName,
        message_type: Option<TlsMessageType>,
        counter: u16,
    ) -> (r: Variable)
        ensures
            r == (Variable { unique_id, resistant_id, typ, agent, message_type, counter }),
    {
        Variable { unique_id, resistant_id, typ, agent, message_type, counter }
    }

    /// Whether both variables ask for the same value, whatever their ids.
    pub open spec fn same_query(self, other: Variable) -> bool {
        &&& self.typ.id == other.typ.id
        &&& self.agent == other.agent
        &&& self.message_type == other.message_type
        &&& self.counter == other.counter
    }
}

impl Clone for Variable {
    fn clone(&self) -> (r: Variable)
        ensures
            r == *self,
    {
        Variable {
            unique_id: self.unique_id,
            resistant_id: self.resistant_id,
            typ: self.typ.clone(),
            agent: self.agent,
            message_type: self.message_type,
            counter: self.counter,
        }
    }
}

impl PartialEq for Variable {
    fn eq(&self, other: &Variable) -> (r: bool) {
        self.typ.id == other.typ.id && self.agent == other.agent && self.message_type
            == other.message_type && self.counter == other.counter
    }
}

impl PartialEqSpecImpl for Variable {
    open spec fn obeys_eq_spec() -> bool {
        true
    }

    open spec fn eq_spec(&self, other: &Variable) -> bool {
        self.same_query(*other)
    }
}

} // verus!
