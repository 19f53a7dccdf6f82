//! What can go wrong while terms are evaluated and traces are run.

use crate::agent::AgentName;
use crate::term::dynamic_function::TypeShape;
use vstd::prelude::*;

verus! {

/// Why a call of a dynamic function failed.
#[derive(Debug)]
pub enum FnError {
    /// The function takes the first number of arguments and was given the second.
    WrongArity(usize, usize),
    /// The argument at the given index should be of the first type and is of the second.
    TypeMismatch(usize, TypeShape, TypeShape),
    /// The function itself failed, for the reason it gives.
    Unknown(&'static str),
}

/// Why the evaluation of a term or the execution of a trace stopped.
#[derive(Debug)]
pub enum Error {
    /// A value is not of the type that its place asks for.
    Type,
    /// What was asked for is not there: a variable without a value, a path without a subterm.
    Missing,
    /// A function symbol reported its own error.
    Function(FnError),
    /// The bytes of a channel are not a sequence of records.
    Stream,
    /// The native library reported a protocol error.
    OpenSSL(String),
    /// The trace names an agent that it does not have.
    Agent(AgentName),
}

} // verus!
