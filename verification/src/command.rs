//! The description of one external command invocation. The crate never runs
//! a process itself: it hands the caller an `Invocation` whose every element
//! is pinned by the contract of the function that built it, and the caller
//! spawns it with the stated timeout and reports the captured output back.
use vstd::prelude::*;

verus! {

/// One external command to run: program name, environment overrides, the
/// argument list in order, and the timeout bounding the call.
pub struct Invocation {
    pub program: String,
    pub env: Vec<(String, String)>,
    pub args: Vec<String>,
    pub timeout_ms: u64,
}

} // verus!
