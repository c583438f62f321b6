//! What the coordinator answers to its callers.

use crate::task::{JobId, TaskNumber, WorkerId};
use vstd::prelude::*;

verus! {

/// The views of a list of strings, in order.
pub open spec fn texts(strings: Seq<String>) -> Seq<Seq<char>> {
    Seq::new(strings.len(), |i: int| strings[i]@)
}

/// Which worker ran a map task, for the reduce workers that fetch its output.
#[derive(Clone, Copy, Debug, PartialEq, Eq, Structural)]
pub struct MapTaskAssignment {
    pub task: TaskNumber,
    pub worker_id: WorkerId,
}

/// Answer to a worker that asks for a task.
pub struct GetTaskReply {
    pub job_id: JobId,
    pub output_dir: String,
    pub app: String,
    pub task: TaskNumber,
    /// Input file of a map task; empty otherwise.
    pub file: String,
    pub n_reduce: usize,
    pub n_map: usize,
    /// The task is a reduce task.
    pub reduce: bool,
    /// There is no task to hand out now; the other fields tell nothing to act on.
    pub wait: bool,
    pub map_task_assignments: Vec<MapTaskAssignment>,
    pub args: Vec<u8>,
}

/// A `GetTaskReply` as the contracts see it.
pub struct GetTaskReplyView {
    pub job_id: JobId,
    pub output_dir: Seq<char>,
    pub app: Seq<char>,
    pub task: TaskNumber,
    pub file: Seq<char>,
    pub n_reduce: usize,
    pub n_map: usize,
    pub reduce: bool,
    pub wait: bool,
    pub map_task_assignments: Seq<MapTaskAssignment>,
    pub args: Seq<u8>,
}

impl View for GetTaskReply {
    type V = GetTaskReplyView;

    open spec fn view(&self) -> GetTaskReplyView {
        GetTaskReplyView {
            job_id: self.job_id,
            output_dir: self.output_dir@,
            app: self.app@,
            task: self.task,
            file: self.file@,
            n_reduce: self.n_reduce,
            n_map: self.n_map,
            reduce: self.reduce,
            wait: self.wait,
            map_task_assignments: self.map_task_assignments@,
            args: self.args@,
        }
    }
}

impl GetTaskReplyView {
    /// The answer "nothing to do now": it names no job and no task.
    pub open spec fn idle() -> GetTaskReplyView {
        GetTaskReplyView {
            job_id: 0,
            output_dir: Seq::empty(),
            app: Seq::empty(),
            task: 0,
            file: Seq::empty(),
            n_reduce: 0,
            n_map: 0,
            reduce: false,
            wait: true,
            map_task_assignments: Seq::empty(),
            args: Seq::empty(),
        }
    }

    /// The answer hands out a task.
    pub open spec fn offers_task(self) -> bool {
        !self.wait
    }
}

impl GetTaskReply {
    /// The answer "nothing to do now".
    pub fn idle() -> (reply: GetTaskReply)
        ensures
            reply@ == GetTaskReplyView::idle(),
    {
        GetTaskReply {
            job_id: 0,
            output_dir: String::new(),
            app: String::new(),
            task: 0,
            file: String::new(),
            n_reduce: 0,
            n_map: 0,
            reduce: false,
            wait: true,
            map_task_assignments: Vec::new(),
            args: Vec::new(),
        }
    }
}

/// Answer to a client that asks how its job is doing.
pub struct PollJobReply {
    /// The job has ended, well or not.
    pub done: bool,
    /// The job was aborted.
    pub failed: bool,
    /// The error recorded for an aborted job, if any.
    pub errors: Vec<String>,
}

/// A `PollJobReply` as the contracts see it.
pub struct PollJobReplyView {
    pub done: bool,
    pub failed: bool,
    pub errors: Seq<Seq<char>>,
}

impl View for PollJobReply {
    type V = PollJobReplyView;

    open spec fn view(&self) -> PollJobReplyView {
        PollJobReplyView { done: self.done, failed: self.failed, errors: texts(self.errors@) }
    }
}

/// The classes of error a call can end with.
#[derive(Clone, Copy, Debug, PartialEq, Eq, Structural)]
pub enum Code {
    InvalidArgument,
    NotFound,
    FailedPrecondition,
}

/// Why a call was refused.
#[derive(Clone, Copy, Debug, PartialEq, Eq, Structural)]
pub enum CoordinatorError {
    /// The job names an application that is not registered.
    UnknownApplication,
    /// No job has the given identifier.
    JobNotFound,
    /// No registered worker has the given identifier.
    WorkerNotFound,
    /// The job has no task of the given kind and number.
    TaskNotFound,
    /// A reduce task was reported failed while a map task of its job is not completed.
    MapPhaseIncomplete,
    /// The failure cannot be retried: the job is aborted.
    JobAborted,
}

impl CoordinatorError {
    /// The class of the error.
    pub open spec fn spec_code(self) -> Code {
        match self {
            CoordinatorError::UnknownApplication => Code::InvalidArgument,
            CoordinatorError::JobNotFound => Code::NotFound,
            CoordinatorError::WorkerNotFound => Code::NotFound,
            CoordinatorError::TaskNotFound => Code::NotFound,
            CoordinatorError::MapPhaseIncomplete => Code::FailedPrecondition,
            CoordinatorError::JobAborted => Code::FailedPrecondition,
        }
    }

    /// What the error says, in words.
    pub open spec fn spec_message(self) -> Seq<char> {
        match self {
            CoordinatorError::UnknownApplication => "No application of that name"@,
            CoordinatorError::JobNotFound => "Job not found"@,
            CoordinatorError::WorkerNotFound => "Worker not found"@,
            CoordinatorError::TaskNotFound => "Task not found"@,
            CoordinatorError::MapPhaseIncomplete => "Not all map tasks are completed"@,
            CoordinatorError::JobAborted => "Job aborted"@,
        }
    }

    /// The class of the error.
    #[verifier::when_used_as_spec(spec_code)]
    pub fn code(self) -> (code: Code)
        ensures
            code == self.spec_code(),
    {
        match self {
            CoordinatorError::UnknownApplication => Code::InvalidArgument,
            CoordinatorError::JobNotFound => Code::NotFound,
            CoordinatorError::WorkerNotFound => Code::NotFound,
            CoordinatorError::TaskNotFound => Code::NotFound,
            CoordinatorError::MapPhaseIncomplete => Code::FailedPrecondition,
            CoordinatorError::JobAborted => Code::FailedPrecondition,
        }
    }
}

impl CoordinatorError {
    /// What the error says, in words.
    pub fn message(self) -> (text: String)
        ensures
            text@ == self.spec_message(),
    {
        match self {
            CoordinatorError::UnknownApplication => "No application of that name".to_string(),
            CoordinatorError::JobNotFound => "Job not found".to_string(),
            CoordinatorError::WorkerNotFound => "Worker not found".to_string(),
            CoordinatorError::TaskNotFound => "Task not found".to_string(),
            CoordinatorError::MapPhaseIncomplete => "Not all map tasks are completed".to_string(),
            CoordinatorError::JobAborted => "Job aborted".to_string(),
        }
    }
}

/// The outcome of a call that answers with `T`, seen through `T`'s view.
pub open spec fn outcome<T: View>(result: Result<T, CoordinatorError>) -> Result<
    T::V,
    CoordinatorError,
> {
    match result {
        Ok(reply) => Ok(reply@),
        Err(error) => Err(error),
    }
}

} // verus!
