//! Markers for the trace middleware: request logging and end-of-stream
//! logging.

use vstd::prelude::*;

verus! {

/// Struct used to describe to the trace middleware what to print on each
/// request.
#[derive(Debug, Clone, PartialEq, Eq, Structural)]
pub struct RequestHandler;

impl RequestHandler {
    /// The marker value the middleware is built with.
    pub fn new() -> (r: Self)
        ensures
            r == (RequestHandler {  }),
    {
        RequestHandler {  }
    }
}

/// Struct used to describe to the trace middleware what to print when a
/// stream ends.
#[derive(Debug, Clone, PartialEq, Eq, Structural)]
pub struct EosHandler;

impl EosHandler {
    /// The marker value the middleware is built with.
    pub fn new() -> (r: Self)
        ensures
            r == (EosHandler {  }),
    {
        EosHandler {  }
    }
}

} // verus!
