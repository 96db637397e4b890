//! The hooks that run after a task.
use vstd::prelude::*;

verus! {

/// Which hook of a task runs.
#[derive(Debug, Clone, Copy, PartialEq, Eq, Structural)]
pub enum EndHandler {
    OnSuccess,
    OnError,
    OnEnd,
}

impl EndHandler {
    /// The hook's name as the bakefile writes it.
    pub fn name(&self) -> (r: &'static str)
        ensures
            r@ == match self {
                EndHandler::OnSuccess => "on_success"@,
                EndHandler::OnError => "on_error"@,
                EndHandler::OnEnd => "on_end"@,
            },
    {
        match self {
            EndHandler::OnSuccess => "on_success",
            EndHandler::OnError => "on_error",
            EndHandler::OnEnd => "on_end",
        }
    }
}

} // verus!
