//! A symbolic fuzzer for TLS at the level of the protocol.
//!
//! A test is a *trace*: a sequence of steps in which agents are handed
//! messages and are asked for what they have sent. The messages are given
//! as *terms* over the functions of a protocol library and over variables
//! that stand for what an agent has sent before. The library holds the term
//! algebra, the evaluation of terms, the bookkeeping of a running trace, and
//! the mutations that turn well-typed traces into well-typed traces.

pub mod agent;
pub mod error;
pub mod fuzzer;
pub mod graphviz;
pub mod io;
pub mod term;
pub mod text;
pub mod tls;
pub mod trace;
