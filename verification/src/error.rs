use vstd::prelude::*;

use crate::task_id::TaskId;

verus! {

/// The errors of the orchestration framework.
#[derive(Debug, PartialEq, Eq)]
pub enum OrchestratorError {
    TaskInitialization(String),
    TaskExecution(String),
    TaskShutdown(String),
    InvalidChannel(String),
    EventSend(String),
    EventReceive(String),
    TaskNotFound(TaskId),
    MissingComponent(&'static str),
    NotInitialized(&'static str),
    InvalidTaskEventType(&'static str),
    InvalidConfiguration(String),
    SerializationError(String),
}

} // verus!
