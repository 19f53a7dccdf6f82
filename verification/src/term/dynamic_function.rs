//! Run-time descriptions of value types and of the functions over them.

use crate::error::FnError;
use crate::io::clone_bytes;
use crate::io::{Message, MessageModel};
use crate::term::atoms::{Function, FunctionModel};
use vstd::prelude::*;
use vstd::std_specs::cmp::PartialEqSpecImpl;

verus! {

/// Identifies the type of a value that crosses the term boundary.
///
/// Two shapes denote the same type exactly if their `id`s agree; `name` is
/// what is shown to a reader.
#[derive(Debug)]
pub struct TypeShape {
    pub id: u64,
    pub name: String,
}

impl TypeShape {
    pub fn new(id: u64, name: &str) -> (r: TypeShape)
        ensures
            r.id == id,
            r.name@ == name@,
    {
        TypeShape { id, name: String::from_str(name) }
    }

    /// Whether both shapes denote the same type.
    pub open spec fn same(self, other: TypeShape) -> bool {
        self.id == other.id
    }

    /// The name shown for this type.
    pub fn name(&self) -> (r: &str)
        ensures
            r@ == self.name@,
    {
        self.name.as_str()
    }
}

impl Clone for TypeShape {
    fn clone(&self) -> (r: TypeShape)
        ensures
            r == *self,
    {
        TypeShape { id: self.id, name: self.name.clone() }
    }
}

impl PartialEq for TypeShape {
    fn eq(&self, other: &TypeShape) -> (r: bool) {
        self.id == other.id
    }
}

impl PartialEqSpecImpl for TypeShape {
    open spec fn obeys_eq_spec() -> bool {
        true
    }

    open spec fn eq_spec(&self, other: &TypeShape) -> bool {
        self.id == other.id
    }
}

/// The signature of a function symbol: its name, the types of its arguments
/// in order, and the type of its result.
#[derive(Debug)]
pub struct DynamicFunctionShape {
    pub name: String,
    pub argument_types: Vec<TypeShape>,
    pub return_type: TypeShape,
}

/// What a [`DynamicFunctionShape`] says, as plain mathematics.
pub struct ShapeModel {
    pub name: Seq<char>,
    pub argument_types: Seq<TypeShape>,
    pub return_type: TypeShape,
}

impl ShapeModel {
    pub open spec fn arity(self) -> nat {
        self.argument_types.len()
    }
}

impl View for DynamicFunctionShape {
    type V = ShapeModel;

    open spec fn view(&self) -> ShapeModel {
        ShapeModel {
            name: self.name@,
            argument_types: self.argument_types@,
            return_type: self.return_type,
        }
    }
}

/// A copy of a list of shapes.
pub fn clone_shapes(shapes: &Vec<TypeShape>) -> (r: Vec<TypeShape>)
    ensures
        r@ == shapes@,
{
    let mut copies: Vec<TypeShape> = Vec::new();
    let mut i: usize = 0;
    while i < shapes.len()
        invariant
            i <= shapes.len(),
            copies@ == shapes@.take(i as int),
        decreases shapes.len() - i,
    {
        copies.push(shapes[i].clone());
        i = i + 1;
    }
    copies
}

impl DynamicFunctionShape {
    pub fn new(name: &str, argument_types: Vec<TypeShape>, return_type: TypeShape) -> (r:
        DynamicFunctionShape)
        ensures
            r@.name == name@,
            r@.argument_types == argument_types@,
            r@.return_type == return_type,
    {
        DynamicFunctionShape { name: String::from_str(name), argument_types, return_type }
    }

    /// The number of arguments.
    pub fn arity(&self) -> (r: usize)
        ensures
            r == self@.arity(),
    {
        self.argument_types.len()
    }

    /// Whether the function takes no argument.
    pub fn is_constant(&self) -> (r: bool)
        ensures
            r == (self@.arity() == 0),
    {
        self.argument_types.len() == 0
    }
}

impl Clone for DynamicFunctionShape {
    fn clone(&self) -> (r: DynamicFunctionShape)
        ensures
            r@ == self@,
    {
        DynamicFunctionShape {
            name: self.name.clone(),
            argument_types: clone_shapes(&self.argument_types),
            return_type: self.return_type.clone(),
        }
    }
}

/// A value whose type is known only at run time: the bytes that stand for
/// it, and the shape of its type.
#[derive(Debug)]
pub struct Value {
    pub shape: TypeShape,
    pub data: Vec<u8>,
}

/// A [`Value`] as plain mathematics.
pub struct ValueModel {
    pub shape: TypeShape,
    pub data: Seq<u8>,
}

impl View for Value {
    type V = ValueModel;

    open spec fn view(&self) -> ValueModel {
        ValueModel { shape: self.shape, data: self.data@ }
    }
}

impl Value {
    pub fn new(shape: TypeShape, data: Vec<u8>) -> (r: Value)
        ensures
            r@ == (ValueModel { shape, data: data@ }),
    {
        Value { shape, data }
    }
}

impl Clone for Value {
    fn clone(&self) -> (r: Value)
        ensures
            r@ == self@,
    {
        Value { shape: self.shape.clone(), data: clone_bytes(&self.data) }
    }
}

/// The models of a sequence of values.
pub open spec fn value_models(values: Seq<Value>) -> Seq<ValueModel> {
    Seq::new(values.len(), |i: int| values[i]@)
}

/// The model of the outcome of a call.
pub open spec fn outcome_model(outcome: Result<Value, FnError>) -> Result<ValueModel, FnError> {
    match outcome {
        Ok(value) => Ok(value@),
        Err(error) => Err(error),
    }
}

/// The index of the first of `arguments`, from `from` on, whose type is not
/// the declared one.
pub open spec fn first_mismatch(types: Seq<TypeShape>, arguments: Seq<ValueModel>, from: int) -> Option<
    int,
>
    decreases arguments.len() - from,
{
    if from < 0 || from >= arguments.len() || from >= types.len() {
        None
    } else if arguments[from].shape.id != types[from].id {
        Some(from)
    } else {
        first_mismatch(types, arguments, from + 1)
    }
}

/// Whether `arguments` are as many as `shape` declares, each of the declared type.
pub open spec fn arguments_fit(shape: ShapeModel, arguments: Seq<ValueModel>) -> bool {
    &&& arguments.len() == shape.argument_types.len()
    &&& forall|i: int|
        0 <= i < arguments.len() ==> (#[trigger] arguments[i]).shape.id
            == shape.argument_types[i].id
}

/// Where no argument from `from` on is of a wrong type, all of them fit.
pub proof fn lemma_no_mismatch(types: Seq<TypeShape>, arguments: Seq<ValueModel>, from: int)
    requires
        0 <= from,
        arguments.len() == types.len(),
    ensures
        match first_mismatch(types, arguments, from) {
            Some(i) => from <= i < arguments.len() && arguments[i].shape.id != types[i].id
                && forall|j: int| from <= j < i ==> (#[trigger] arguments[j]).shape.id == types[j].id,
            None => forall|j: int|
                from <= j < arguments.len() ==> (#[trigger] arguments[j]).shape.id == types[j].id,
        },
    decreases arguments.len() - from,
{
    if from < arguments.len() && arguments[from].shape.id == types[from].id {
        lemma_no_mismatch(types, arguments, from + 1);
    }
}

/// The typed functions of a protocol, and what it takes note of in a message.
///
/// The functions are called with arguments of their declared types and give
/// a value of their declared type, or their own error. What they give
/// depends on the function and the arguments alone.
pub trait FunctionLibrary: Sized {
    /// What the function gives on arguments of the declared types.
    spec fn result(&self, function: FunctionModel, arguments: Seq<ValueModel>) -> Result<
        ValueModel,
        FnError,
    >;

    /// The parts of a message that are worth knowing, in a fixed order.
    spec fn claims(&self, message: MessageModel) -> Seq<ValueModel>;

    /// A value that a function gives is of the function's return type.
    proof fn result_is_typed(&self, function: FunctionModel, arguments: Seq<ValueModel>)
        requires
            arguments_fit(function.shape, arguments),
        ensures
            self.result(function, arguments) matches Ok(value) ==> value.shape.id
                == function.shape.return_type.id,
    ;

    /// Calls the function on arguments of the declared types.
    fn call(&self, function: &Function, arguments: &Vec<Value>) -> (r: Result<Value, FnError>)
        requires
            arguments_fit(function@.shape, value_models(arguments@)),
        ensures
            outcome_model(r) == self.result(function@, value_models(arguments@)),
    ;

    /// The parts of `message` that are worth knowing.
    fn extract_knowledge(&self, message: &Message) -> (r: Vec<Value>)
        ensures
            value_models(r@) == self.claims(message@),
    ;
}

/// What a dynamic call gives: an error if the arguments are not as many as
/// the function takes, or if one is not of the declared type (the first such
/// one is named); otherwise what the function itself gives.
pub open spec fn dynamic_result<L: FunctionLibrary>(
    library: L,
    function: FunctionModel,
    arguments: Seq<ValueModel>,
) -> Result<ValueModel, FnError> {
    let types = function.shape.argument_types;
    if arguments.len() != types.len() {
        Err(FnError::WrongArity(types.len() as usize, arguments.len() as usize))
    } else {
        match first_mismatch(types, arguments, 0) {
            Some(i) => Err(FnError::TypeMismatch(i as usize, types[i], arguments[i].shape)),
            None => library.result(function, arguments),
        }
    }
}

/// Dynamic and static calls agree: on arguments of the declared types the
/// dynamic call gives what the function itself gives.
pub proof fn lemma_dynamic_agrees_with_static<L: FunctionLibrary>(
    library: L,
    function: FunctionModel,
    arguments: Seq<ValueModel>,
)
    requires
        arguments_fit(function.shape, arguments),
    ensures
        dynamic_result(library, function, arguments) == library.result(function, arguments),
{
    lemma_no_mismatch(function.shape.argument_types, arguments, 0);
}

/// A function symbol together with the library that knows how to compute it:
/// a callable that takes values of any type and checks them before the call.
pub struct DynamicFunction<'a, L: FunctionLibrary> {
    pub library: &'a L,
    pub function: &'a Function,
}

/// Makes the function behind `function` callable with values of any type.
pub fn make_dynamic<'a, L: FunctionLibrary>(library: &'a L, function: &'a Function) -> (r:
    DynamicFunction<'a, L>)
    ensures
        r.library == library,
        r.function == function,
{
    DynamicFunction { library, function }
}

impl<'a, L: FunctionLibrary> DynamicFunction<'a, L> {
    /// The signature of the function.
    pub fn shape(&self) -> (r: &DynamicFunctionShape)
        ensures
            r@ == self.function@.shape,
    {
        &self.function.shape
    }

    /// Calls the function after checking the number and the types of the arguments.
    pub fn call(&self, arguments: &Vec<Value>) -> (r: Result<Value, FnError>)
        ensures
            outcome_model(r) == dynamic_result(
                *self.library,
                self.function@,
                value_models(arguments@),
            ),
    {
        let types = &self.function.shape.argument_types;
        if arguments.len() != types.len() {
            return Err(FnError::WrongArity(types.len(), arguments.len()));
        }
        let ghost given = value_models(arguments@);
        let mut i: usize = 0;
        while i < arguments.len()
            invariant
                i <= arguments.len(),
                arguments.len() == types.len(),
                given == value_models(arguments@),
                types@ == self.function@.shape.argument_types,
                first_mismatch(types@, given, 0) == first_mismatch(types@, given, i as int),
            decreases arguments.len() - i,
        {
            if arguments[i].shape.id != types[i].id {
                return Err(
                    FnError::TypeMismatch(i, types[i].clone(), arguments[i].shape.clone()),
                );
            }
            i = i + 1;
        }
        proof {
            lemma_no_mismatch(types@, given, 0);
        }
        self.library.call(self.function, arguments)
    }
}

} // verus!
