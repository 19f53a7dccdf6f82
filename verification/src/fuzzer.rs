//! What the fuzzing loop needs from the library: its settings, the
//! mutations and the seed traces.

pub mod libafl_setup;
pub mod mutations;
pub mod seeds;
