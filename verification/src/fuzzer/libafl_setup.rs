//! The settings of the fuzzing loop, and the decisions it takes.

use vstd::prelude::*;

verus! {

/// How many iterations each stage gets at most; it may stop earlier. Each
/// iteration works on another input of the corpus.
pub const MAX_ITERATIONS_PER_STAGE: u64 = 256;

/// How many mutations one iteration applies at most.
pub const MAX_MUTATIONS_PER_ITERATION: u64 = 16;

/// The seconds that one trace may take to run.
pub const TIMEOUT_SECONDS: u64 = 2;

/// Every how many status messages one is shown, for each of the two kinds
/// of message that come in pairs.
pub const LOG_EVERY: usize = 1000;

/// Whether the status message with the number `log_count`, counted from 0,
/// is shown: of every thousand messages the first two are, which are one
/// message about all workers and one about a single worker.
pub fn should_log(log_count: usize) -> (r: bool)
    ensures
        r == (log_count % 1000 == 0 || log_count % 1000 == 1),
{
    log_count % LOG_EVERY == 0 || (log_count - 1) % LOG_EVERY == 0
}

/// The cores that the workers are bound to: the first `num_cores` ones.
pub fn cores(num_cores: usize) -> (r: Vec<usize>)
    ensures
        r@ == Seq::new(num_cores as nat, |i: int| i as usize),
{
    let mut all: Vec<usize> = Vec::new();
    let mut i: usize = 0;
    while i < num_cores
        invariant
            i <= num_cores,
            all@ == Seq::new(i as nat, |j: int| j as usize),
        decreases num_cores - i,
    {
        all.push(i);
        i = i + 1;
    }
    all
}

} // verus!
