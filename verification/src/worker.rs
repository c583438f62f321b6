//! Registered workers: their heartbeat, what they hold, and which jobs they
//! have worked on.

use crate::ids::{vec_contains, vec_remove, with, without};
use crate::task::{JobId, TaskNumber, WorkerId};
use vstd::prelude::*;

verus! {

/// A worker that stays silent for more than this many time units is presumed dead.
pub const TASK_TIMEOUT_SECS: u64 = 7;

/// What a worker is doing.
#[derive(Clone, Copy, Debug, PartialEq, Eq, Structural)]
pub enum WorkerStatus {
    Idle,
    Busy,
    Dead,
}

/// How a worker record names the kind of its task: `1` for a reduce task,
/// `0` for a map task.
pub open spec fn kind_code(reduce: bool) -> u8 {
    if reduce {
        1
    } else {
        0
    }
}

/// The task a worker was last given.
#[derive(Clone, Copy, Debug, PartialEq, Eq, Structural)]
pub struct WorkerTask {
    pub job_id: JobId,
    pub task_number: TaskNumber,
    pub worker_task_status: u8,
}

/// One registered worker.
pub struct Worker {
    pub worker_id: WorkerId,
    /// Time of registration or of the last heartbeat.
    pub heartbeat_time: u64,
    pub worker_status: WorkerStatus,
    /// The job of the task last given to the worker; `0` if none.
    pub job_id: JobId,
    /// The unfinished jobs the worker was given a task of, oldest first.
    pub job_ids: Vec<JobId>,
    pub task_number: TaskNumber,
    pub worker_task_status: u8,
}

/// A worker as the contracts see it.
pub struct WorkerView {
    pub worker_id: WorkerId,
    pub heartbeat_time: u64,
    pub worker_status: WorkerStatus,
    pub job_id: JobId,
    pub job_ids: Seq<JobId>,
    pub task_number: TaskNumber,
    pub worker_task_status: u8,
}

impl View for Worker {
    type V = WorkerView;

    open spec fn view(&self) -> WorkerView {
        WorkerView {
            worker_id: self.worker_id,
            heartbeat_time: self.heartbeat_time,
            worker_status: self.worker_status,
            job_id: self.job_id,
            job_ids: self.job_ids@,
            task_number: self.task_number,
            worker_task_status: self.worker_task_status,
        }
    }
}

impl WorkerView {
    /// The worker `worker_id` as it registers at time `now`.
    pub open spec fn registered(worker_id: WorkerId, now: u64) -> WorkerView {
        WorkerView {
            worker_id,
            heartbeat_time: now,
            worker_status: WorkerStatus::Idle,
            job_id: 0,
            job_ids: Seq::empty(),
            task_number: 0,
            worker_task_status: 0,
        }
    }

    /// At time `now` the last heartbeat is more than the timeout ago.
    pub open spec fn is_stale(self, now: u64) -> bool {
        now - self.heartbeat_time > TASK_TIMEOUT_SECS
    }

    /// The worker after a heartbeat at time `now`.
    pub open spec fn refreshed(self, now: u64) -> WorkerView {
        WorkerView { heartbeat_time: now, ..self }
    }

    /// The worker after it was given task `task_number` of job `job_id`, a
    /// reduce task if `reduce` and a map task if not.
    pub open spec fn engaged(self, job_id: JobId, task_number: TaskNumber, reduce: bool) -> WorkerView {
        WorkerView {
            worker_status: WorkerStatus::Busy,
            job_id,
            job_ids: with(self.job_ids, job_id),
            task_number,
            worker_task_status: kind_code(reduce),
            ..self
        }
    }

    /// The worker after it reported a task finished.
    pub open spec fn rested(self) -> WorkerView {
        WorkerView { worker_status: WorkerStatus::Idle, ..self }
    }

    /// The worker after it reported a task failed: idle, holding nothing.
    pub open spec fn cleared(self) -> WorkerView {
        WorkerView { worker_status: WorkerStatus::Idle, job_id: 0, task_number: 0, ..self }
    }

    /// The worker after job `job_id` was struck from its history.
    pub open spec fn forgetting(self, job_id: JobId) -> WorkerView {
        WorkerView { job_ids: without(self.job_ids, job_id), ..self }
    }
}

impl Worker {
    /// The record of a worker that registers at time `now`.
    pub fn new(worker_id: WorkerId, now: u64) -> (worker: Worker)
        ensures
            worker@ == WorkerView::registered(worker_id, now),
    {
        Worker {
            worker_id,
            heartbeat_time: now,
            worker_status: WorkerStatus::Idle,
            job_id: 0,
            job_ids: Vec::new(),
            task_number: 0,
            worker_task_status: 0,
        }
    }

    /// Tells whether the worker has been silent for longer than the timeout.
    pub fn is_stale(&self, now: u64) -> (stale: bool)
        ensures
            stale == self@.is_stale(now),
    {
        now > self.heartbeat_time && now - self.heartbeat_time > TASK_TIMEOUT_SECS
    }

    /// Records the task the worker was given.
    pub fn engage(&mut self, job_id: JobId, task_number: TaskNumber, reduce: bool)
        ensures
            final(self)@ == old(self)@.engaged(job_id, task_number, reduce),
    {
        self.worker_status = WorkerStatus::Busy;
        self.job_id = job_id;
        if !vec_contains(&self.job_ids, job_id) {
            self.job_ids.push(job_id);
        }
        self.task_number = task_number;
        self.worker_task_status = if reduce {
            1
        } else {
            0
        };
    }

    /// Strikes job `job_id` from the worker's history.
    pub fn forget(&mut self, job_id: JobId)
        ensures
            final(self)@ == old(self)@.forgetting(job_id),
    {
        vec_remove(&mut self.job_ids, job_id);
    }

    /// The task the worker was last given.
    pub fn task(&self) -> (held: WorkerTask)
        ensures
            held.job_id == self@.job_id,
            held.task_number == self@.task_number,
            held.worker_task_status == self@.worker_task_status,
    {
        WorkerTask {
            job_id: self.job_id,
            task_number: self.task_number,
            worker_task_status: self.worker_task_status,
        }
    }
}

} // verus!
