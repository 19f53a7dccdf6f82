//! The registry of function symbols, and the maker of variable symbols.

use crate::agent::AgentName;
use crate::term::atoms::{Function, FunctionModel, Variable};
use crate::term::dynamic_function::{DynamicFunctionShape, ShapeModel, TypeShape};
use crate::text::{decimal, push_decimal};
use crate::trace::TlsMessageType;
use vstd::prelude::*;
use vstd::string::StringExecFns;

verus! {

/// The id of the one type that operators made by [`Signature::new_op`] work on.
pub const UNTYPED: u64 = 0;

/// Hands out function symbols, one per name, and fresh variable symbols.
///
/// A name that was registered once keeps its symbol: asking again gives the
/// same ids.
#[derive(Debug)]
pub struct Signature {
    functions: Vec<Function>,
    next_id: u32,
}

/// A [`Signature`] as plain mathematics.
pub struct SignatureModel {
    /// The registered symbols, in the order of their registration.
    pub functions: Seq<FunctionModel>,
    /// The id that the next new symbol gets.
    pub next_id: u32,
}

/// The models of a sequence of function symbols.
pub open spec fn function_models(functions: Seq<Function>) -> Seq<FunctionModel> {
    Seq::new(functions.len(), |i: int| functions[i]@)
}

/// The index of the first of `functions` that is called `name`.
pub open spec fn position_of(functions: Seq<FunctionModel>, name: Seq<char>) -> Option<int>
    decreases functions.len(),
{
    if functions.len() == 0 {
        None
    } else {
        match position_of(functions.drop_last(), name) {
            Some(i) => Some(i),
            None => if functions.last().shape.name == name {
                Some(functions.len() - 1)
            } else {
                None
            },
        }
    }
}

/// The id after `id`; the largest id is its own successor.
pub open spec fn following(id: u32) -> u32 {
    if id < u32::MAX {
        (id + 1) as u32
    } else {
        id
    }
}

/// The shape of an operator over untyped terms.
pub open spec fn operator_shape(name: Seq<char>, arity: nat, shape: ShapeModel) -> bool {
    &&& shape.name == name
    &&& shape.argument_types.len() == arity
    &&& forall|i: int| 0 <= i < arity ==> (#[trigger] shape.argument_types[i]).id == UNTYPED
    &&& shape.return_type.id == UNTYPED
}

/// What [`position_of`] finds is a symbol of that name, and the first one.
pub proof fn lemma_position_of(functions: Seq<FunctionModel>, name: Seq<char>)
    ensures
        match position_of(functions, name) {
            Some(i) => {
                &&& 0 <= i < functions.len()
                &&& functions[i].shape.name == name
                &&& forall|j: int| 0 <= j < i ==> (#[trigger] functions[j]).shape.name != name
            },
            None => forall|j: int|
                0 <= j < functions.len() ==> (#[trigger] functions[j]).shape.name != name,
        },
    decreases functions.len(),
{
    if functions.len() > 0 {
        let front = functions.drop_last();
        lemma_position_of(front, name);
        match position_of(front, name) {
            Some(i) => {
                assert forall|j: int| 0 <= j < i implies (#[trigger] functions[j]).shape.name
                    != name by {
                    assert(front[j].shape.name != name);
                }
            },
            None => {
                assert forall|j: int| 0 <= j < front.len() implies (#[trigger] functions[j]).shape.name
                    != name by {
                    assert(front[j].shape.name != name);
                }
            },
        }
    }
}

/// A registered name keeps its symbol whatever is registered after it.
pub proof fn lemma_interning_is_stable(
    functions: Seq<FunctionModel>,
    added: FunctionModel,
    name: Seq<char>,
)
    requires
        position_of(functions, name) is Some,
    ensures
        position_of(functions.push(added), name) == position_of(functions, name),
        functions.push(added)[position_of(functions, name)->0] == functions[position_of(
            functions,
            name,
        )->0],
{
    lemma_position_of(functions, name);
    assert(functions.push(added).drop_last() =~= functions);
}

impl View for Signature {
    type V = SignatureModel;

    closed spec fn view(&self) -> SignatureModel {
        SignatureModel { functions: function_models(self.functions@), next_id: self.next_id }
    }
}

impl Signature {
    /// A signature without symbols.
    pub fn new() -> (r: Signature)
        ensures
            r@.functions.len() == 0,
            r@.next_id == 0,
    {
        Signature { functions: Vec::new(), next_id: 0 }
    }

    fn fresh_id(&mut self) -> (r: u32)
        ensures
            r == old(self)@.next_id,
            final(self)@.next_id == following(old(self)@.next_id),
            final(self)@.functions == old(self)@.functions,
    {
        let id = self.next_id;
        if self.next_id < u32::MAX {
            self.next_id = self.next_id + 1;
        }
        id
    }

    /// The registered symbol called `name`, if there is one.
    pub fn find(&self, name: &str) -> (r: Option<&Function>)
        ensures
            match position_of(self@.functions, name@) {
                Some(i) => r matches Some(function) && function@ == self@.functions[i],
                None => r is None,
            },
    {
        let wanted = String::from_str(name);
        let mut i: usize = 0;
        while i < self.functions.len()
            invariant
                i <= self.functions.len(),
                wanted@ == name@,
                position_of(self@.functions.take(i as int), name@) is None,
            decreases self.functions.len() - i,
        {
            proof {
                let all = self@.functions;
                assert(all.take(i as int + 1).drop_last() =~= all.take(i as int));
                lemma_position_of(all, name@);
                lemma_position_of(all.take(i as int + 1), name@);
            }
            if self.functions[i].shape.name == wanted {
                proof {
                    let all = self@.functions;
                    assert(forall|j: int| 0 <= j < i ==> all.take(i as int)[j] == all[j]);
                }
                return Some(&self.functions[i]);
            }
            i = i + 1;
        }
        proof {
            assert(self@.functions.take(self.functions.len() as int) =~= self@.functions);
        }
        None
    }

    /// The symbol of the function described by `shape`.
    ///
    /// A name that is registered keeps the symbol it has; a new name is
    /// registered under the next id.
    pub fn new_function(&mut self, shape: &DynamicFunctionShape) -> (r: Function)
        ensures
            match position_of(old(self)@.functions, shape@.name) {
                Some(i) => r@ == old(self)@.functions[i] && final(self)@ == old(self)@,
                None => {
                    &&& r@ == (FunctionModel {
                        unique_id: old(self)@.next_id,
                        resistant_id: old(self)@.next_id,
                        shape: shape@,
                    })
                    &&& final(self)@.functions == old(self)@.functions.push(r@)
                    &&& final(self)@.next_id == following(old(self)@.next_id)
                },
            },
    {
        match self.find(shape.name.as_str()) {
            Some(function) => {
                return function.clone();
            },
            None => {},
        }
        let id = self.fresh_id();
        let function = Function { unique_id: id, resistant_id: id, shape: shape.clone() };
        let copy = function.clone();
        self.functions.push(function);
        copy
    }

    /// The symbol of an operator over untyped terms that takes `arity`
    /// arguments. Without a name the operator is called `op` followed by the
    /// next id.
    pub fn new_op(&mut self, arity: u32, name: Option<String>) -> (r: Function)
        ensures
            ({
                let called = match name {
                    Some(name) => name@,
                    None => "op"@ + decimal(old(self)@.next_id as nat),
                };
                match position_of(old(self)@.functions, called) {
                    Some(i) => r@ == old(self)@.functions[i] && final(self)@ == old(self)@,
                    None => {
                        &&& r@.unique_id == old(self)@.next_id
                        &&& r@.resistant_id == old(self)@.next_id
                        &&& operator_shape(called, arity as nat, r@.shape)
                        &&& final(self)@.functions == old(self)@.functions.push(r@)
                        &&& final(self)@.next_id == following(old(self)@.next_id)
                    },
                }
            }),
    {
        let called = match name {
            Some(name) => name,
            None => {
                let mut text = String::from_str("op");
                push_decimal(&mut text, self.next_id as u64);
                text
            },
        };
        let mut argument_types: Vec<TypeShape> = Vec::new();
        let mut i: u32 = 0;
        while i < arity
            invariant
                i <= arity,
                argument_types.len() == i,
                forall|j: int| 0 <= j < i ==> (#[trigger] argument_types[j]).id == UNTYPED,
            decreases arity - i,
        {
            argument_types.push(TypeShape::new(UNTYPED, "Term"));
            i = i + 1;
        }
        let shape = DynamicFunctionShape {
            name: called,
            argument_types,
            return_type: TypeShape::new(UNTYPED, "Term"),
        };
        self.new_function(&shape)
    }

    /// A new variable symbol for the `counter`-th value of type `typ` that
    /// `agent` produces among the messages that pass `message_type`.
    pub fn new_var_by_type_id(
        &mut self,
        typ: TypeShape,
        agent: AgentName,
        message_type: Option<TlsMessageType>,
        counter: u16,
    ) -> (r: Variable)
        ensures
            r == (Variable {
                unique_id: old(self)@.next_id,
                resistant_id: old(self)@.next_id,
                typ,
                agent,
                message_type,
                counter,
            }),
            final(self)@.functions == old(self)@.functions,
            final(self)@.next_id == following(old(self)@.next_id),
    {
        let id = self.fresh_id();
        Variable { unique_id: id, resistant_id: id, typ, agent, message_type, counter }
    }

    /// The number of registered symbols.
    pub fn len(&self) -> (r: usize)
        ensures
            r == self@.functions.len(),
    {
        self.functions.len()
    }

    /// The registered symbol at `index`, in the order of registration.
    pub fn get(&self, index: usize) -> (r: Option<&Function>)
        ensures
            match r {
                Some(function) => index < self@.functions.len() && function@
                    == self@.functions[index as int],
                None => index >= self@.functions.len(),
            },
    {
        if index < self.functions.len() {
            Some(&self.functions[index])
        } else {
            None
        }
    }
}

impl Default for Signature {
    fn default() -> (r: Signature)
        ensures
            r@.functions.len() == 0,
            r@.next_id == 0,
    {
        Signature::new()
    }
}

} // verus!
