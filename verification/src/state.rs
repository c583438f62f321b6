//! The coordinator's state as a mathematical value, and what each call does
//! to it: the statements that the operations of `coordinator` are proved
//! against and that `laws` reasons about.

use crate::ids::without;
use crate::job::{JobStatus, JobView};
use crate::message::{CoordinatorError, GetTaskReplyView, PollJobReplyView};
use crate::task::{
    first_idle, is_first_idle, lemma_first_idle_found, JobId, TaskNumber, TaskView, WorkerId,
};
use crate::worker::WorkerView;
use vstd::prelude::*;

verus! {

/// The state of a coordinator as the contracts see it.
pub struct CoordinatorView {
    /// The identifier given to the last worker that registered; `0` before the first.
    pub worker_id: WorkerId,
    pub workers: Map<WorkerId, WorkerView>,
    pub jobs: Map<JobId, JobView>,
    /// The identifier of the last job that was entered; `0` before the first.
    pub job_id: JobId,
    /// The jobs that are not done, in the order of their submission.
    pub job_queue: Seq<JobId>,
}

impl CoordinatorView {
    /// The state of a coordinator that has not been called yet.
    pub open spec fn empty() -> CoordinatorView {
        CoordinatorView {
            worker_id: 0,
            workers: Map::empty(),
            jobs: Map::empty(),
            job_id: 0,
            job_queue: Seq::empty(),
        }
    }

    /// Job `job_id` exists and is not done.
    pub open spec fn is_queued_job(self, job_id: JobId) -> bool {
        self.jobs.contains_key(job_id) && self.jobs[job_id].status != JobStatus::Done
    }

    /// Every record of `tasks`, tasks of job `job_id`, that names a worker
    /// names a registered one that has the job in its history.
    pub open spec fn holders_registered(self, tasks: Seq<TaskView>, job_id: JobId) -> bool {
        forall|i: int|
            0 <= i < tasks.len() && (#[trigger] tasks[i]).worker != 0 ==> {
                &&& self.workers.contains_key(tasks[i].worker)
                &&& self.workers[tasks[i].worker].job_ids.contains(job_id)
            }
    }

    /// The registered workers have identifiers that were given out, and each
    /// record is kept under its own.
    pub open spec fn workers_wf(self) -> bool {
        forall|w: WorkerId| #[trigger]
            self.workers.contains_key(w) ==> 0 < w <= self.worker_id && self.workers[w].worker_id
                == w
    }

    /// The jobs have identifiers that were allotted, and each is well-formed.
    pub open spec fn jobs_wf(self) -> bool {
        forall|j: JobId| #[trigger]
            self.jobs.contains_key(j) ==> 0 < j <= self.job_id && self.jobs[j].wf()
    }

    /// The queue holds the jobs that are not done, each once.
    pub open spec fn queue_wf(self) -> bool {
        &&& self.job_queue.no_duplicates()
        &&& forall|i: int|
            0 <= i < self.job_queue.len() ==> self.is_queued_job(#[trigger] self.job_queue[i])
        &&& forall|j: JobId| #[trigger] self.is_queued_job(j) ==> self.job_queue.contains(j)
    }

    /// In every job that has not ended, a task that names a holder names a
    /// registered worker that has the job in its history.
    pub open spec fn holders_wf(self) -> bool {
        forall|j: JobId| #[trigger]
            self.jobs.contains_key(j) && !self.jobs[j].is_terminal() ==> {
                &&& self.holders_registered(self.jobs[j].map_tasks, j)
                &&& self.holders_registered(self.jobs[j].reduce_tasks, j)
            }
    }

    /// What holds of the state between any two calls.
    pub open spec fn wf(self) -> bool {
        &&& self.workers_wf()
        &&& self.jobs_wf()
        &&& self.queue_wf()
        &&& self.holders_wf()
    }

    // Job submission

    /// What a submission is answered: the new job's identifier, or the
    /// refusal of an application that is not registered.
    pub open spec fn submit_job_reply(self, known: bool) -> Result<JobId, CoordinatorError> {
        if known {
            Ok((self.job_id + 1) as JobId)
        } else {
            Err(CoordinatorError::UnknownApplication)
        }
    }

    /// The state after a submission. A submission that is refused changes
    /// nothing. Otherwise the next identifier is allotted, and the job is
    /// entered under it, pending, and joins the end of the queue.
    pub open spec fn submit_job(
        self,
        known: bool,
        files: Seq<Seq<char>>,
        output_dir: Seq<char>,
        app: Seq<char>,
        n_reduce: usize,
        args: Seq<u8>,
    ) -> CoordinatorView {
        let id = (self.job_id + 1) as JobId;
        if known {
            CoordinatorView {
                job_id: id,
                jobs: self.jobs.insert(
                    id,
                    JobView::submitted(files, output_dir, app, n_reduce, args),
                ),
                job_queue: self.job_queue.push(id),
                ..self
            }
        } else {
            self
        }
    }

    // Job status

    /// What a client that asks about job `job_id` is answered.
    pub open spec fn poll_job_reply(self, job_id: JobId) -> Result<
        PollJobReplyView,
        CoordinatorError,
    > {
        if !self.jobs.contains_key(job_id) {
            Err(CoordinatorError::JobNotFound)
        } else {
            let job = self.jobs[job_id];
            match job.status {
                JobStatus::Done => Ok(
                    PollJobReplyView { done: true, failed: false, errors: Seq::empty() },
                ),
                JobStatus::Failed => Ok(
                    PollJobReplyView {
                        done: true,
                        failed: true,
                        errors: match job.error_message {
                            Some(message) => seq![message],
                            None => Seq::empty(),
                        },
                    },
                ),
                _ => Ok(PollJobReplyView { done: false, failed: false, errors: Seq::empty() }),
            }
        }
    }

    // Workers

    /// The state after a worker registered at time `now`.
    pub open spec fn register(self, now: u64) -> CoordinatorView {
        let id = (self.worker_id + 1) as WorkerId;
        CoordinatorView {
            worker_id: id,
            workers: self.workers.insert(id, WorkerView::registered(id, now)),
            ..self
        }
    }

    /// What a heartbeat of `worker_id` is answered.
    pub open spec fn heartbeat_reply(self, worker_id: WorkerId) -> Result<(), CoordinatorError> {
        if self.workers.contains_key(worker_id) {
            Ok(())
        } else {
            Err(CoordinatorError::WorkerNotFound)
        }
    }

    /// The state after a heartbeat of `worker_id` at time `now`.
    pub open spec fn heartbeat(self, worker_id: WorkerId, now: u64) -> CoordinatorView {
        if self.workers.contains_key(worker_id) {
            CoordinatorView {
                workers: self.workers.insert(worker_id, self.workers[worker_id].refreshed(now)),
                ..self
            }
        } else {
            self
        }
    }

    // Reaping

    /// The registered workers that are presumed dead at time `now`.
    pub open spec fn stale_workers(self, now: u64) -> Set<WorkerId> {
        Set::new(|w: WorkerId| self.workers.contains_key(w) && self.workers[w].is_stale(now))
    }

    /// Those workers of `gone` that have job `job_id` in their history.
    pub open spec fn touching(self, gone: Set<WorkerId>, job_id: JobId) -> Set<WorkerId> {
        Set::new(
            |w: WorkerId|
                gone.contains(w) && self.workers.contains_key(w)
                    && self.workers[w].job_ids.contains(job_id),
        )
    }

    /// The state after the workers of `gone` were declared dead: their
    /// records are discarded, and every job is released from those of them
    /// that had worked on it. The queue stays as it is: a job that is released
    /// is not done, and every job that is not done is in the queue.
    pub open spec fn without_workers(self, gone: Set<WorkerId>) -> CoordinatorView {
        CoordinatorView {
            workers: self.workers.remove_keys(gone),
            jobs: Map::new(
                |j: JobId| self.jobs.contains_key(j),
                |j: JobId| self.jobs[j].released(self.touching(gone, j)),
            ),
            ..self
        }
    }

    /// The state after the workers presumed dead at time `now` were reaped.
    pub open spec fn reaped(self, now: u64) -> CoordinatorView {
        self.without_workers(self.stale_workers(now))
    }

    // Scheduling

    /// The scheduler may pick job `job_id`: it exists and is not passed over.
    pub open spec fn is_open(self, job_id: JobId) -> bool {
        self.jobs.contains_key(job_id) && !self.jobs[job_id].is_full
    }

    /// Position `i` of the queue holds the first job the scheduler may pick.
    pub open spec fn is_next_open(self, i: int) -> bool {
        &&& 0 <= i < self.job_queue.len()
        &&& self.is_open(self.job_queue[i])
        &&& forall|k: int| 0 <= k < i ==> !self.is_open(#[trigger] self.job_queue[k])
    }

    /// The job the scheduler picks: the first of the queue that is not passed over.
    pub open spec fn next_open_job(self) -> Option<JobId> {
        if exists|i: int| self.is_next_open(i) {
            Some(self.job_queue[choose|i: int| self.is_next_open(i)])
        } else {
            None
        }
    }

    /// The first job that may be picked is determined by `is_next_open`.
    pub proof fn lemma_next_open_is(self, i: int)
        requires
            self.is_next_open(i),
        ensures
            self.next_open_job() == Some(self.job_queue[i]),
    {
        let k = choose|k: int| self.is_next_open(k);
        assert(self.is_next_open(k));
        if k < i {
            assert(!self.is_open(self.job_queue[k]));
        }
        if i < k {
            assert(!self.is_open(self.job_queue[i]));
        }
    }

    /// The job the scheduler picks is in the queue and not passed over, and
    /// the task it offers in either phase is an idle one.
    pub proof fn lemma_next_open_job_is_open(self)
        ensures
            self.next_open_job() matches Some(job_id) ==> {
                &&& self.is_open(job_id)
                &&& self.job_queue.contains(job_id)
                &&& first_idle(self.jobs[job_id].map_tasks) matches Some(i) ==> is_first_idle(
                    self.jobs[job_id].map_tasks,
                    i,
                )
                &&& first_idle(self.jobs[job_id].reduce_tasks) matches Some(i) ==> is_first_idle(
                    self.jobs[job_id].reduce_tasks,
                    i,
                )
            },
    {
        if exists|i: int| self.is_next_open(i) {
            let i = choose|i: int| self.is_next_open(i);
            assert(self.is_next_open(i));
            lemma_first_idle_found(self.jobs[self.job_queue[i]].map_tasks);
            lemma_first_idle_found(self.jobs[self.job_queue[i]].reduce_tasks);
        }
    }

    /// The state after registered worker `worker_id` was answered from job
    /// `job_id`: the job has dispatched, and the worker is busy with the task
    /// if it got one.
    pub open spec fn handed(self, job_id: JobId, worker_id: WorkerId) -> CoordinatorView {
        let job = self.jobs[job_id];
        let reply = job.offer(job_id);
        CoordinatorView {
            jobs: self.jobs.insert(job_id, job.dispatched(worker_id)),
            workers: if reply.wait {
                self.workers
            } else {
                self.workers.insert(
                    worker_id,
                    self.workers[worker_id].engaged(job_id, reply.task, reply.reduce),
                )
            },
            ..self
        }
    }

    /// What worker `worker_id` is answered when it asks for a task at time
    /// `now`. Dead workers are reaped first; a worker that is not registered
    /// after that is refused. The answer comes from the job the scheduler
    /// picks, and is "nothing to do now" if it picks none.
    pub open spec fn get_task_reply(self, worker_id: WorkerId, now: u64) -> Result<
        GetTaskReplyView,
        CoordinatorError,
    > {
        let live = self.reaped(now);
        if !live.workers.contains_key(worker_id) {
            Err(CoordinatorError::WorkerNotFound)
        } else {
            match live.next_open_job() {
                Some(job_id) => Ok(live.jobs[job_id].offer(job_id)),
                None => Ok(GetTaskReplyView::idle()),
            }
        }
    }

    /// The state after worker `worker_id` asked for a task at time `now`.
    pub open spec fn get_task(self, worker_id: WorkerId, now: u64) -> CoordinatorView {
        let live = self.reaped(now);
        if !live.workers.contains_key(worker_id) {
            live
        } else {
            match live.next_open_job() {
                Some(job_id) => live.handed(job_id, worker_id),
                None => live,
            }
        }
    }

    // Completion

    /// What worker `worker_id` is answered when it reports task `number` of
    /// job `job_id` finished.
    pub open spec fn finish_task_reply(
        self,
        worker_id: WorkerId,
        job_id: JobId,
        number: TaskNumber,
        reduce: bool,
    ) -> Result<(), CoordinatorError> {
        if !self.workers.contains_key(worker_id) {
            Err(CoordinatorError::WorkerNotFound)
        } else if !self.jobs.contains_key(job_id) {
            Err(CoordinatorError::JobNotFound)
        } else if !self.jobs[job_id].is_terminal() && !self.jobs[job_id].has_task(number, reduce) {
            Err(CoordinatorError::TaskNotFound)
        } else {
            Ok(())
        }
    }

    /// The state after worker `worker_id` reported task `number` of job
    /// `job_id` finished. A report that is refused changes nothing. Otherwise
    /// the worker is idle and the job has the task finished; a job that is
    /// done by it leaves the queue and the history of every worker.
    pub open spec fn finish_task(
        self,
        worker_id: WorkerId,
        job_id: JobId,
        number: TaskNumber,
        reduce: bool,
    ) -> CoordinatorView {
        if self.finish_task_reply(worker_id, job_id, number, reduce) is Err {
            self
        } else {
            let job = self.jobs[job_id].finished(number, reduce);
            let rested = self.workers.insert(worker_id, self.workers[worker_id].rested());
            if job.status == JobStatus::Done && self.jobs[job_id].status != JobStatus::Done {
                CoordinatorView {
                    jobs: self.jobs.insert(job_id, job),
                    workers: Map::new(
                        |w: WorkerId| rested.contains_key(w),
                        |w: WorkerId| rested[w].forgetting(job_id),
                    ),
                    job_queue: without(self.job_queue, job_id),
                    ..self
                }
            } else {
                CoordinatorView { jobs: self.jobs.insert(job_id, job), workers: rested, ..self }
            }
        }
    }

    // Failure

    /// What a worker is answered when it reports a task of job `job_id` failed.
    pub open spec fn fail_task_reply(self, job_id: JobId, reduce: bool, retry: bool) -> Result<
        (),
        CoordinatorError,
    > {
        if !self.jobs.contains_key(job_id) {
            Err(CoordinatorError::JobNotFound)
        } else {
            self.jobs[job_id].failure_outcome(reduce, retry)
        }
    }

    /// The state after worker `worker_id` reported task `number` of job
    /// `job_id` failed with `error`. Nothing changes if there is no such job.
    /// Otherwise the job has the failure recorded, and unless the report is
    /// out of order the worker, if it is registered, is idle and holds
    /// nothing.
    pub open spec fn fail_task(
        self,
        worker_id: WorkerId,
        job_id: JobId,
        number: TaskNumber,
        reduce: bool,
        retry: bool,
        error: Seq<char>,
    ) -> CoordinatorView {
        if !self.jobs.contains_key(job_id) {
            self
        } else {
            let job = self.jobs[job_id];
            CoordinatorView {
                jobs: self.jobs.insert(job_id, job.failed(number, reduce, retry, error)),
                workers: if job.rejects_failure(reduce) || !self.workers.contains_key(worker_id) {
                    self.workers
                } else {
                    self.workers.insert(worker_id, self.workers[worker_id].cleared())
                },
                ..self
            }
        }
    }
}

} // verus!
