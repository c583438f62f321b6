//! What holds of the coordinator whatever its callers do: the laws of the
//! scheduling protocol, proved of the state transitions of `state`.

use crate::job::{completed, JobStatus, JobView};
use crate::reap::lemma_released_status;
use crate::state::CoordinatorView;
use crate::task::{
    all_completed, idle_task, is_position_of, lemma_position_found, lemma_position_of_is,
    lemma_some_position, position_of, JobId,
    TaskNumber, TaskStatus, TaskView, WorkerId,
};
use vstd::prelude::*;

verus! {

/// One call on the coordinator, with its arguments as the contracts see them.
pub enum Call {
    SubmitJob {
        /// The application is registered.
        known: bool,
        files: Seq<Seq<char>>,
        output_dir: Seq<char>,
        app: Seq<char>,
        n_reduce: usize,
        args: Seq<u8>,
    },
    PollJob { job_id: JobId },
    Register { now: u64 },
    Heartbeat { worker_id: WorkerId, now: u64 },
    GetTask { worker_id: WorkerId, now: u64 },
    FinishTask { worker_id: WorkerId, job_id: JobId, task: TaskNumber, reduce: bool },
    FailTask {
        worker_id: WorkerId,
        job_id: JobId,
        task: TaskNumber,
        reduce: bool,
        retry: bool,
        error: Seq<char>,
    },
}

impl CoordinatorView {
    /// The state after `call`.
    pub open spec fn after(self, call: Call) -> CoordinatorView {
        match call {
            Call::SubmitJob { known, files, output_dir, app, n_reduce, args } => self.submit_job(
                known,
                files,
                output_dir,
                app,
                n_reduce,
                args,
            ),
            Call::PollJob { job_id } => self,
            Call::Register { now } => self.register(now),
            Call::Heartbeat { worker_id, now } => self.heartbeat(worker_id, now),
            Call::GetTask { worker_id, now } => self.get_task(worker_id, now),
            Call::FinishTask { worker_id, job_id, task, reduce } => self.finish_task(
                worker_id,
                job_id,
                task,
                reduce,
            ),
            Call::FailTask { worker_id, job_id, task, reduce, retry, error } => self.fail_task(
                worker_id,
                job_id,
                task,
                reduce,
                retry,
                error,
            ),
        }
    }

    /// The coordinator can take `call`: an identifier is left for what it
    /// registers or submits, and the list of files has a length the machine
    /// can hold.
    pub open spec fn admits(self, call: Call) -> bool {
        match call {
            Call::SubmitJob { files, .. } => self.job_id < u32::MAX && files.len() <= usize::MAX,
            Call::Register { .. } => self.worker_id < u32::MAX,
            _ => true,
        }
    }

    /// In every job that is in its reduce phase, every map task is completed.
    pub open spec fn reduce_phase_follows_map_phase(self) -> bool {
        forall|j: JobId| #[trigger]
            self.jobs.contains_key(j) && self.jobs[j].status == JobStatus::Reducing
                ==> all_completed(self.jobs[j].map_tasks)
    }

    /// In every job that is done, every task is completed.
    pub open spec fn done_jobs_are_completed(self) -> bool {
        forall|j: JobId| #[trigger]
            self.jobs.contains_key(j) && self.jobs[j].status == JobStatus::Done ==> all_completed(
                self.jobs[j].map_tasks,
            ) && all_completed(self.jobs[j].reduce_tasks)
    }

    /// `call` reports a reduce task finished in a job that is not in its
    /// reduce phase and has not ended.
    pub open spec fn finishes_reduce_task_out_of_phase(self, call: Call) -> bool {
        call matches Call::FinishTask { job_id, reduce, .. } && reduce && self.jobs.contains_key(
            job_id,
        ) && !self.jobs[job_id].is_terminal() && self.jobs[job_id].status != JobStatus::Reducing
    }

    /// `call` aborts job `job_id`: it reports a failure that cannot be
    /// retried, the report is in order, and the job has not ended.
    pub open spec fn aborts(self, call: Call, job_id: JobId) -> bool {
        call matches Call::FailTask { job_id: failed, reduce, retry, .. } && failed == job_id
            && !retry && self.jobs.contains_key(job_id) && !self.jobs[job_id].is_terminal()
            && !self.jobs[job_id].rejects_failure(reduce)
    }

    /// Every call keeps the state well-formed.
    pub proof fn law_calls_keep_state_well_formed(self, call: Call)
        requires
            self.wf(),
            self.admits(call),
        ensures
            self.after(call).wf(),
    {
        match call {
            Call::SubmitJob { known, files, output_dir, app, n_reduce, args } => {
                self.lemma_submit_job_wf(known, files, output_dir, app, n_reduce, args);
            },
            Call::PollJob { job_id } => {},
            Call::Register { now } => {
                self.lemma_register_wf(now);
            },
            Call::Heartbeat { worker_id, now } => {
                self.lemma_heartbeat_wf(worker_id, now);
            },
            Call::GetTask { worker_id, now } => {
                self.lemma_get_task_wf(worker_id, now);
            },
            Call::FinishTask { worker_id, job_id, task, reduce } => {
                self.lemma_finish_task_wf(worker_id, job_id, task, reduce);
            },
            Call::FailTask { worker_id, job_id, task, reduce, retry, error } => {
                self.lemma_fail_task_wf(worker_id, job_id, task, reduce, retry, error);
            },
        }
    }

    /// In a well-formed state the reduce phase follows the map phase: a job
    /// is in its reduce phase only while every one of its map tasks is
    /// completed.
    pub proof fn law_reduce_phase_follows_map_phase(self)
        requires
            self.wf(),
        ensures
            self.reduce_phase_follows_map_phase(),
    {
    }

    /// A reduce task is handed out only when every map task of its job is
    /// completed, as the reaping of the call leaves them: the job is in its
    /// reduce phase then and stays in it.
    pub proof fn law_reduce_task_waits_for_map_tasks(self, worker_id: WorkerId, now: u64)
        requires
            self.wf(),
        ensures
            self.get_task_reply(worker_id, now) matches Ok(reply) ==> (!reply.wait && reply.reduce
                ==> {
                let live = self.reaped(now);
                let after = self.get_task(worker_id, now);
                &&& live.jobs.contains_key(reply.job_id)
                &&& live.jobs[reply.job_id].status == JobStatus::Reducing
                &&& all_completed(live.jobs[reply.job_id].map_tasks)
                &&& after.jobs[reply.job_id].status == JobStatus::Reducing
                &&& after.jobs[reply.job_id].map_tasks == live.jobs[reply.job_id].map_tasks
            }),
    {
        let live = self.reaped(now);
        self.lemma_reaped_wf(now);
        live.lemma_next_open_job_is_open();
    }

    /// A job with a map task that is not completed, as the reaping of the
    /// call leaves them, hands out no reduce task: none of its reduce tasks
    /// changes.
    pub proof fn law_no_reduce_task_during_map_phase(self, worker_id: WorkerId, now: u64, job_id: JobId)
        requires
            self.wf(),
            self.jobs.contains_key(job_id),
            !all_completed(self.reaped(now).jobs[job_id].map_tasks),
        ensures
            self.get_task(worker_id, now).jobs[job_id].reduce_tasks == self.reaped(
                now,
            ).jobs[job_id].reduce_tasks,
            self.get_task_reply(worker_id, now) matches Ok(reply) ==> !(reply.job_id == job_id
                && reply.reduce && !reply.wait),
    {
        let live = self.reaped(now);
        self.lemma_reaped_wf(now);
        self.law_reduce_task_waits_for_map_tasks(worker_id, now);
        live.lemma_next_open_job_is_open();
    }

    /// A task that may be retried is offered again: after the report the
    /// task is idle and held by nobody, and its job is in the queue and not
    /// passed over; a map task takes its job back into the map phase.
    pub proof fn law_retried_task_is_offered_again(
        self,
        worker_id: WorkerId,
        job_id: JobId,
        task: TaskNumber,
        reduce: bool,
        error: Seq<char>,
    )
        requires
            self.wf(),
            self.jobs.contains_key(job_id),
            !self.jobs[job_id].is_terminal(),
            !self.jobs[job_id].rejects_failure(reduce),
        ensures
            ({
                let after = self.fail_task(worker_id, job_id, task, reduce, true, error);
                let job = after.jobs[job_id];
                &&& self.fail_task_reply(job_id, reduce, true) is Ok
                &&& after.is_open(job_id)
                &&& after.job_queue.contains(job_id)
                &&& position_of(job.tasks_of(reduce), task) matches Some(i) && job.tasks_of(
                    reduce,
                )[i] == idle_task(task)
                &&& !reduce ==> job.status == JobStatus::Pending || job.status
                    == JobStatus::Mapping
            }),
    {
        let after = self.fail_task(worker_id, job_id, task, reduce, true, error);
        let before = self.jobs[job_id].tasks_of(reduce);
        let tasks = after.jobs[job_id].tasks_of(reduce);
        assert(self.is_queued_job(job_id));
        lemma_position_found(before, task);
        match position_of(before, task) {
            Some(i) => {
                assert(is_position_of(tasks, task, i)) by {
                    assert forall|k: int| 0 <= k < i implies (#[trigger] tasks[k]).number != task by {
                        assert(before[k].number != task);
                    }
                }
                lemma_position_of_is(tasks, task, i);
            },
            None => {
                let i = before.len() as int;
                assert(is_position_of(tasks, task, i)) by {
                    assert forall|k: int| 0 <= k < i implies (#[trigger] tasks[k]).number != task by {
                        assert(before[k].number == tasks[k].number);
                        if before[k].number == task {
                            lemma_some_position(before, task, k);
                        }
                    }
                }
                lemma_position_of_is(tasks, task, i);
            },
        }
    }

    /// A job has a task for each of its input files and each of its reduce
    /// partitions, so a report that such a task is finished, from a
    /// registered worker, is taken: unless the job has ended, the task is
    /// completed.
    pub proof fn law_finish_task_finds_the_task(
        self,
        worker_id: WorkerId,
        job_id: JobId,
        task: TaskNumber,
        reduce: bool,
    )
        requires
            self.wf(),
            self.workers.contains_key(worker_id),
            self.jobs.contains_key(job_id),
            task < (if reduce {
                self.jobs[job_id].n_reduce
            } else {
                self.jobs[job_id].files.len() as usize
            }),
        ensures
            self.jobs[job_id].has_task(task, reduce),
            self.finish_task_reply(worker_id, job_id, task, reduce) is Ok,
            !self.jobs[job_id].is_terminal() ==> self.finish_task(
                worker_id,
                job_id,
                task,
                reduce,
            ).jobs[job_id].tasks_of(reduce)[task as int] == (TaskView {
                status: TaskStatus::Completed,
                ..self.jobs[job_id].tasks_of(reduce)[task as int]
            }),
    {
        self.jobs[job_id].lemma_has_tasks(task, reduce);
    }

    /// In a job that has not ended, a task record that names a holder names
    /// a registered worker, one that has the job in its history.
    pub proof fn law_task_holder_is_registered(self, job_id: JobId, reduce: bool, i: int)
        requires
            self.wf(),
            self.jobs.contains_key(job_id),
            !self.jobs[job_id].is_terminal(),
            0 <= i < self.jobs[job_id].tasks_of(reduce).len(),
            self.jobs[job_id].tasks_of(reduce)[i].worker != 0,
        ensures
            self.workers.contains_key(self.jobs[job_id].tasks_of(reduce)[i].worker),
            self.workers[self.jobs[job_id].tasks_of(reduce)[i].worker].job_ids.contains(job_id),
    {
        assert(self.holders_registered(self.jobs[job_id].map_tasks, job_id));
        assert(self.holders_registered(self.jobs[job_id].reduce_tasks, job_id));
    }

    /// A task changes hands only when it is idle: a call that asks for a
    /// task changes, after the reaping, at most one task record, an idle one,
    /// which it assigns to the caller, a registered worker.
    pub proof fn law_only_idle_tasks_are_handed_out(self, worker_id: WorkerId, now: u64)
        requires
            self.wf(),
        ensures
            ({
                let live = self.reaped(now);
                let after = self.get_task(worker_id, now);
                forall|j: JobId, reduce: bool, i: int|
                    #![trigger after.jobs[j].tasks_of(reduce)[i]]
                    live.jobs.contains_key(j) && 0 <= i < live.jobs[j].tasks_of(reduce).len()
                        && after.jobs[j].tasks_of(reduce)[i] != live.jobs[j].tasks_of(reduce)[i]
                        ==> {
                        &&& live.jobs[j].tasks_of(reduce)[i].status == TaskStatus::Idle
                        &&& after.jobs[j].tasks_of(reduce)[i] == (TaskView {
                            worker: worker_id,
                            status: TaskStatus::Assigned,
                            ..live.jobs[j].tasks_of(reduce)[i]
                        })
                        &&& after.workers.contains_key(worker_id)
                        &&& self.get_task_reply(worker_id, now) matches Ok(reply) && !reply.wait
                            && reply.job_id == j && reply.reduce == reduce && reply.task
                            == live.jobs[j].tasks_of(reduce)[i].number
                    }
            }),
    {
        let live = self.reaped(now);
        let after = self.get_task(worker_id, now);
        live.lemma_next_open_job_is_open();
    }

    /// Where no registered worker is stale, the reaping changes nothing.
    pub proof fn law_reaping_needs_a_stale_worker(self, now: u64)
        requires
            forall|w: WorkerId| #[trigger]
                self.workers.contains_key(w) ==> !self.workers[w].is_stale(now),
        ensures
            self.reaped(now) == self,
    {
        let gone = self.stale_workers(now);
        let live = self.reaped(now);
        assert(gone =~= Set::empty());
        assert(live.workers =~= self.workers);
        assert forall|j: JobId| self.jobs.contains_key(j) implies live.jobs[j] == self.jobs[j] by {
            assert(self.touching(gone, j) =~= Set::empty());
        }
        assert(live.jobs =~= self.jobs);
    }

    /// After the reaping no dead worker is registered, and in every job that
    /// has not ended every task holder is a live worker: the tasks that dead
    /// workers held are idle and held by nobody, and the scheduler considers
    /// their jobs again.
    pub proof fn law_reaped_tasks_are_free(self, now: u64)
        requires
            self.wf(),
        ensures
            ({
                let live = self.reaped(now);
                &&& forall|w: WorkerId| #[trigger]
                    self.stale_workers(now).contains(w) ==> !live.workers.contains_key(w)
                &&& forall|j: JobId, reduce: bool, i: int|
                    #![trigger live.jobs[j].tasks_of(reduce)[i]]
                    self.jobs.contains_key(j) && !self.jobs[j].is_terminal() && 0 <= i
                        < self.jobs[j].tasks_of(reduce).len() && self.stale_workers(now).contains(
                        self.jobs[j].tasks_of(reduce)[i].worker,
                    ) ==> {
                        &&& live.jobs[j].tasks_of(reduce)[i] == idle_task(
                            self.jobs[j].tasks_of(reduce)[i].number,
                        )
                        &&& !live.jobs[j].is_full
                        &&& live.job_queue.contains(j)
                    }
            }),
    {
        let live = self.reaped(now);
        let gone = self.stale_workers(now);
        self.lemma_reaped_wf(now);
        assert forall|j: JobId, reduce: bool, i: int|
            #![trigger live.jobs[j].tasks_of(reduce)[i]]
            self.jobs.contains_key(j) && !self.jobs[j].is_terminal() && 0 <= i
                < self.jobs[j].tasks_of(reduce).len() && gone.contains(
                self.jobs[j].tasks_of(reduce)[i].worker,
            ) implies {
            &&& live.jobs[j].tasks_of(reduce)[i] == idle_task(
                self.jobs[j].tasks_of(reduce)[i].number,
            )
            &&& !live.jobs[j].is_full
            &&& live.job_queue.contains(j)
        } by {
            let tasks = self.jobs[j].tasks_of(reduce);
            let w = tasks[i].worker;
            assert(self.holders_registered(self.jobs[j].map_tasks, j));
            assert(self.holders_registered(self.jobs[j].reduce_tasks, j));
            assert(self.workers.contains_key(w));
            assert(w != 0);
            assert(self.workers[w].job_ids.contains(j));
            assert(self.touching(gone, j).contains(w));
            assert(self.is_queued_job(j));
        }
    }

    /// A job with a reduce task whose map and reduce tasks are all completed
    /// is done.
    pub proof fn law_completed_job_is_done(self, job_id: JobId)
        requires
            self.wf(),
            self.jobs.contains_key(job_id),
            self.jobs[job_id].reduce_tasks.len() > 0,
            all_completed(self.jobs[job_id].map_tasks),
            all_completed(self.jobs[job_id].reduce_tasks),
        ensures
            self.jobs[job_id].status == JobStatus::Done,
    {
    }

    /// A job becomes done only by the report that completes its reduce
    /// tasks: after a call a job is done just if it was done before, or the
    /// call reported one of its tasks finished, the job had not ended, and
    /// all its reduce tasks are completed now.
    pub proof fn law_done_by_last_reduce_task(self, call: Call, job_id: JobId)
        requires
            self.wf(),
            self.admits(call),
            self.jobs.contains_key(job_id),
        ensures
            self.after(call).jobs.contains_key(job_id),
            self.after(call).jobs[job_id].status == JobStatus::Done <==> self.jobs[job_id].status
                == JobStatus::Done || (call matches Call::FinishTask {
                worker_id,
                job_id: finished,
                task,
                reduce,
            } && finished == job_id && reduce && self.finish_task_reply(
                worker_id,
                job_id,
                task,
                reduce,
            ) is Ok && !self.jobs[job_id].is_terminal() && all_completed(
                self.after(call).jobs[job_id].reduce_tasks,
            )),
    {
        match call {
            Call::GetTask { worker_id, now } => {
                self.lemma_get_task_keeps_end(worker_id, now, job_id);
            },
            Call::SubmitJob { known, files, output_dir, app, n_reduce, args } => {},
            _ => {},
        }
    }

    /// Where done jobs have all their tasks completed, they have so after
    /// every call, but for the report of a finished reduce task to a job
    /// outside its reduce phase.
    pub proof fn law_done_jobs_stay_completed(self, call: Call)
        requires
            self.wf(),
            self.done_jobs_are_completed(),
            !self.finishes_reduce_task_out_of_phase(call),
        ensures
            self.after(call).done_jobs_are_completed(),
    {
        let after = self.after(call);
        assert forall|j: JobId| #[trigger]
            after.jobs.contains_key(j) && after.jobs[j].status == JobStatus::Done implies all_completed(
            after.jobs[j].map_tasks,
        ) && all_completed(after.jobs[j].reduce_tasks) by {
            match call {
                Call::SubmitJob { known, files, output_dir, app, n_reduce, args } => {
                    assert(self.jobs.contains_key(j));
                },
                Call::GetTask { worker_id, now } => {
                    let live = self.reaped(now);
                    assert(self.jobs.contains_key(j));
                    lemma_released_status(self.jobs[j], self.touching(self.stale_workers(now), j));
                    live.lemma_next_open_job_is_open();
                },
                Call::FinishTask { worker_id, job_id, task, reduce } => {
                    assert(self.jobs.contains_key(j));
                },
                Call::FailTask { worker_id, job_id, task, reduce, retry, error } => {
                    assert(self.jobs.contains_key(j));
                },
                _ => {},
            }
        }
    }

    /// A job is failed after a call just if it was failed before or the call
    /// aborted it.
    pub proof fn law_failed_by_abort_only(self, call: Call, job_id: JobId)
        requires
            self.wf(),
            self.admits(call),
            self.jobs.contains_key(job_id),
        ensures
            self.after(call).jobs.contains_key(job_id),
            self.after(call).jobs[job_id].status == JobStatus::Failed <==> self.jobs[job_id].status
                == JobStatus::Failed || self.aborts(call, job_id),
    {
        match call {
            Call::GetTask { worker_id, now } => {
                self.lemma_get_task_keeps_end(worker_id, now, job_id);
            },
            _ => {},
        }
    }

    /// A call that asks for a task neither ends a job nor revives one.
    pub proof fn lemma_get_task_keeps_end(self, worker_id: WorkerId, now: u64, job_id: JobId)
        requires
            self.jobs.contains_key(job_id),
        ensures
            self.get_task(worker_id, now).jobs.contains_key(job_id),
            self.get_task(worker_id, now).jobs[job_id].status == JobStatus::Done
                <==> self.jobs[job_id].status == JobStatus::Done,
            self.get_task(worker_id, now).jobs[job_id].status == JobStatus::Failed
                <==> self.jobs[job_id].status == JobStatus::Failed,
    {
        let live = self.reaped(now);
        let after = self.get_task(worker_id, now);
        lemma_released_status(self.jobs[job_id], self.touching(self.stale_workers(now), job_id));
        assert(live.jobs[job_id] == self.jobs[job_id].released(
            self.touching(self.stale_workers(now), job_id),
        ));
        live.lemma_next_open_job_is_open();
        if live.workers.contains_key(worker_id) {
            if let Some(picked) = live.next_open_job() {
                assert(after == live.handed(picked, worker_id));
                if picked == job_id {
                    let job = live.jobs[job_id];
                    assert(after.jobs[job_id] == job.dispatched(worker_id));
                    assert(job.dispatched(worker_id).status == JobStatus::Done <==> job.status
                        == JobStatus::Done);
                    assert(job.dispatched(worker_id).status == JobStatus::Failed <==> job.status
                        == JobStatus::Failed);
                } else {
                    assert(after.jobs[job_id] == live.jobs[job_id]);
                }
            } else {
                assert(after == live);
            }
        } else {
            assert(after == live);
        }
    }

    /// A job that has ended stays as it is, whatever is called.
    pub proof fn law_ended_jobs_are_frozen(self, call: Call, job_id: JobId)
        requires
            self.wf(),
            self.admits(call),
            self.jobs.contains_key(job_id),
            self.jobs[job_id].is_terminal(),
        ensures
            self.after(call).jobs.contains_key(job_id),
            self.after(call).jobs[job_id] == self.jobs[job_id],
    {
        match call {
            Call::GetTask { worker_id, now } => {
                let live = self.reaped(now);
                let after = self.get_task(worker_id, now);
                assert(live.jobs[job_id] == self.jobs[job_id]);
                live.lemma_next_open_job_is_open();
                if live.workers.contains_key(worker_id) {
                    if let Some(picked) = live.next_open_job() {
                        assert(live.jobs.contains_key(picked));
                        assert(after == live.handed(picked, worker_id));
                        if picked == job_id {
                            assert(live.jobs[job_id].dispatched(worker_id) == live.jobs[job_id]);
                        }
                        assert(after.jobs[job_id] == self.jobs[job_id]);
                    } else {
                        assert(after == live);
                    }
                } else {
                    assert(after == live);
                }
            },
            Call::SubmitJob { known, files, output_dir, app, n_reduce, args } => {
                assert(self.after(call).jobs[job_id] == self.jobs[job_id]);
            },
            Call::PollJob { job_id: polled } => {},
            Call::Register { now } => {},
            Call::Heartbeat { worker_id, now } => {},
            Call::FinishTask { worker_id, job_id: finished, task, reduce } => {
                assert(self.after(call).jobs[job_id] == self.jobs[job_id]);
            },
            Call::FailTask { worker_id, job_id: failed, task, reduce, retry, error } => {
                assert(self.after(call).jobs[job_id] == self.jobs[job_id]);
            },
        }
    }

    /// Reporting a task finished a second time changes nothing and is
    /// answered as the first time.
    pub proof fn law_finish_task_is_idempotent(
        self,
        worker_id: WorkerId,
        job_id: JobId,
        task: TaskNumber,
        reduce: bool,
    )
        requires
            self.wf(),
        ensures
            ({
                let once = self.finish_task(worker_id, job_id, task, reduce);
                &&& once.finish_task(worker_id, job_id, task, reduce) == once
                &&& once.finish_task_reply(worker_id, job_id, task, reduce)
                    == self.finish_task_reply(worker_id, job_id, task, reduce)
            }),
    {
        let once = self.finish_task(worker_id, job_id, task, reduce);
        let twice = once.finish_task(worker_id, job_id, task, reduce);
        if self.finish_task_reply(worker_id, job_id, task, reduce) is Ok {
            let job = self.jobs[job_id];
            let then = job.finished(task, reduce);
            job.lemma_finished_twice(task, reduce);
            assert(once.jobs[job_id] == then);
            assert(twice.jobs =~= once.jobs);
            assert(twice.workers =~= once.workers);
        }
    }
}

impl JobView {
    /// Marking a task finished a second time changes nothing.
    pub proof fn lemma_finished_twice(self, number: TaskNumber, reduce: bool)
        ensures
            self.finished(number, reduce).finished(number, reduce) == self.finished(number, reduce),
            !self.is_terminal() && self.has_task(number, reduce) ==> self.finished(
                number,
                reduce,
            ).is_terminal() || self.finished(number, reduce).has_task(number, reduce),
    {
        let once = self.finished(number, reduce);
        if !self.is_terminal() && self.has_task(number, reduce) {
            let tasks = self.tasks_of(reduce);
            lemma_position_found(tasks, number);
            let i = position_of(tasks, number)->0;
            let marked = completed(tasks, number);
            assert(is_position_of(marked, number, i)) by {
                assert forall|k: int| 0 <= k < i implies (#[trigger] marked[k]).number != number by {
                    assert(tasks[k].number != number);
                }
            }
            lemma_position_of_is(marked, number, i);
            assert(completed(marked, number) =~= marked);
        }
    }
}

} // verus!
