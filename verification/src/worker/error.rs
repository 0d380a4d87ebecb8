use vstd::prelude::*;

verus! {

/// The errors of the worker.
#[derive(Debug)]
pub enum WorkerError {
    LlmProvider(String),
    Agent(String),
    LlmTimeout(u64),
    Environment(String),
    Db(String),
    Embedding(String),
}

} // verus!
