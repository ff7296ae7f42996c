//! What goes wrong with the language models.
use vstd::prelude::*;

verus! {

/// What goes wrong with the language models.
#[derive(Clone, Debug)]
pub enum Error {
    /// A setting cannot be used.
    InvalidEnvVar { var: String, value: String, reason: String },
    /// The models were shut down.
    Disposed,
    /// Models are not used in continuous integration.
    CiDisabled,
    /// The session was released, or its time is over.
    SessionReleased(String),
    /// A worker thread is gone.
    WorkerClosed,
    /// A text cannot be cut into tokens.
    Tokenize(String),
    /// The model library reports an error.
    Llama(String),
}

} // verus!
