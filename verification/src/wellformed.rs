//! Every call keeps the state well-formed.

use crate::ids::{lemma_push_contains, lemma_without_contains, lemma_without_no_duplicates};
use crate::job::{completed, JobStatus, JobView};
use crate::reap::lemma_released_status;
use crate::state::CoordinatorView;
use crate::task::{
    all_completed, first_idle, is_position_of, lemma_first_idle_found, lemma_position_found,
    lemma_position_of_is, position_of, released, retried, JobId, TaskNumber, TaskStatus, TaskView,
    WorkerId,
};
use vstd::prelude::*;

verus! {

/// A list of tasks in which one was retried is not empty and not all
/// completed, and starts with the records it started with.
pub proof fn lemma_retried(tasks: Seq<TaskView>, number: TaskNumber, n: nat)
    ensures
        retried(tasks, number).len() > 0,
        !all_completed(retried(tasks, number)),
        JobView::starts_with_tasks(tasks, n) ==> JobView::starts_with_tasks(
            retried(tasks, number),
            n,
        ),
{
    lemma_position_found(tasks, number);
    let after = retried(tasks, number);
    match position_of(tasks, number) {
        Some(i) => {
            assert(after[i].status == TaskStatus::Idle);
        },
        None => {
            assert(after[tasks.len() as int].status == TaskStatus::Idle);
        },
    }
    if JobView::starts_with_tasks(tasks, n) {
        lemma_numbers_kept(tasks, after, n);
    }
}

/// `then` has a record for the same task as `tasks` at each position of
/// `tasks`.
pub open spec fn same_numbers(tasks: Seq<TaskView>, then: Seq<TaskView>) -> bool {
    &&& tasks.len() <= then.len()
    &&& forall|i: int| 0 <= i < tasks.len() ==> (#[trigger] then[i]).number == tasks[i].number
}

/// A list that starts with the records of tasks `0..n` does so while its
/// records keep their task numbers.
pub proof fn lemma_numbers_kept(tasks: Seq<TaskView>, then: Seq<TaskView>, n: nat)
    requires
        JobView::starts_with_tasks(tasks, n),
        same_numbers(tasks, then),
    ensures
        JobView::starts_with_tasks(then, n),
{
    assert forall|i: int| 0 <= i < n implies (#[trigger] then[i]).number == i by {
        assert(tasks[i].number == i);
    }
}

/// Every holder that `then` names is `worker`, or the holder that `tasks`
/// names at the same position.
pub open spec fn holders_from(tasks: Seq<TaskView>, then: Seq<TaskView>, worker: WorkerId) -> bool {
    forall|i: int|
        0 <= i < then.len() && (#[trigger] then[i]).worker != 0 ==> then[i].worker == worker || (i
            < tasks.len() && tasks[i].worker == then[i].worker)
}

impl JobView {
    /// A job has a task for each input file and each partition while its
    /// records keep their task numbers.
    pub proof fn lemma_tasks_kept(self, after: JobView)
        requires
            self.wf(),
            after.files == self.files,
            after.n_reduce == self.n_reduce,
            same_numbers(self.map_tasks, after.map_tasks),
            same_numbers(self.reduce_tasks, after.reduce_tasks),
        ensures
            JobView::starts_with_tasks(after.map_tasks, after.files.len()),
            JobView::starts_with_tasks(after.reduce_tasks, after.n_reduce as nat),
    {
        lemma_numbers_kept(self.map_tasks, after.map_tasks, self.files.len());
        lemma_numbers_kept(self.reduce_tasks, after.reduce_tasks, self.n_reduce as nat);
    }

    /// A job is well-formed as it is submitted.
    pub proof fn lemma_submitted_wf(
        files: Seq<Seq<char>>,
        output_dir: Seq<char>,
        app: Seq<char>,
        n_reduce: usize,
        args: Seq<u8>,
    )
        requires
            files.len() <= usize::MAX,
        ensures
            JobView::submitted(files, output_dir, app, n_reduce, args).wf(),
    {
        let job = JobView::submitted(files, output_dir, app, n_reduce, args);
        if job.reduce_tasks.len() > 0 {
            assert(job.reduce_tasks[0].status == TaskStatus::Idle);
        }
    }

    /// A release keeps a job well-formed.
    pub proof fn lemma_released_wf(self, gone: Set<WorkerId>)
        requires
            self.wf(),
        ensures
            self.released(gone).wf(),
    {
        let after = self.released(gone);
        if !(self.is_terminal() || gone =~= Set::empty()) {
            if after.reduce_tasks.len() > 0 && all_completed(after.reduce_tasks) {
                assert forall|i: int| 0 <= i < self.reduce_tasks.len() implies (
                #[trigger] self.reduce_tasks[i]).status == TaskStatus::Completed by {
                    assert(after.reduce_tasks[i].status == TaskStatus::Completed);
                }
            }
            if after.status == JobStatus::Reducing {
                assert forall|i: int| 0 <= i < after.map_tasks.len() implies (
                #[trigger] after.map_tasks[i]).status == TaskStatus::Completed by {
                    assert(self.map_tasks[i].status == TaskStatus::Completed);
                    assert(!gone.contains(self.map_tasks[i].worker));
                }
            }
            self.lemma_tasks_kept(after);
        }
    }

    /// Handing out a task keeps a job well-formed.
    pub proof fn lemma_dispatched_wf(self, worker: WorkerId)
        requires
            self.wf(),
        ensures
            self.dispatched(worker).wf(),
    {
        let after = self.dispatched(worker);
        lemma_first_idle_found(self.reduce_tasks);
        lemma_first_idle_found(self.map_tasks);
        if self.status == JobStatus::Reducing {
            if let Some(i) = first_idle(self.reduce_tasks) {
                assert(after.reduce_tasks[i].status == TaskStatus::Assigned);
            }
        }
        self.lemma_tasks_kept(after);
    }

    /// A finished task keeps a job well-formed.
    pub proof fn lemma_finished_wf(self, number: TaskNumber, reduce: bool)
        requires
            self.wf(),
        ensures
            self.finished(number, reduce).wf(),
    {
        let after = self.finished(number, reduce);
        lemma_position_found(self.map_tasks, number);
        lemma_position_found(self.reduce_tasks, number);
        if after.status == JobStatus::Reducing && self.status == JobStatus::Reducing {
            assert forall|i: int| 0 <= i < after.map_tasks.len() implies (
            #[trigger] after.map_tasks[i]).status == TaskStatus::Completed by {
                assert(self.map_tasks[i].status == TaskStatus::Completed);
            }
        }
        self.lemma_tasks_kept(after);
    }

    /// A failed task keeps a job well-formed.
    pub proof fn lemma_failed_wf(
        self,
        number: TaskNumber,
        reduce: bool,
        retry: bool,
        error: Seq<char>,
    )
        requires
            self.wf(),
        ensures
            self.failed(number, reduce, retry, error).wf(),
    {
        let after = self.failed(number, reduce, retry, error);
        if !self.is_terminal() && !self.rejects_failure(reduce) {
            if !retry {
                if after.reduce_tasks.len() > 0 {
                    assert(after.reduce_tasks[0].status == TaskStatus::Failed);
                }
                self.lemma_tasks_kept(after);
            } else if reduce {
                lemma_retried(self.reduce_tasks, number, self.n_reduce as nat);
            } else {
                lemma_retried(self.map_tasks, number, self.files.len());
            }
        }
    }

    /// A well-formed job has a record for each of the map tasks `0..n_map`
    /// and each of the reduce tasks `0..n_reduce`.
    pub proof fn lemma_has_tasks(self, number: TaskNumber, reduce: bool)
        requires
            self.wf(),
            number < (if reduce {
                self.n_reduce
            } else {
                self.n_map
            }),
        ensures
            self.has_task(number, reduce),
            position_of(self.tasks_of(reduce), number) == Some(number as int),
    {
        let tasks = self.tasks_of(reduce);
        assert(is_position_of(tasks, number, number as int)) by {
            assert(tasks[number as int].number == number);
            assert forall|k: int| 0 <= k < number implies (#[trigger] tasks[k]).number != number by {
                assert(tasks[k].number == k);
            }
        }
        lemma_position_of_is(tasks, number, number as int);
    }
}

impl CoordinatorView {
    /// Every worker that has job `job_id` in its history is registered in
    /// `after` and has it there too.
    pub open spec fn histories_kept(self, after: CoordinatorView, job_id: JobId) -> bool {
        forall|w: WorkerId|
            #![trigger self.workers.contains_key(w)]
            #![trigger after.workers.contains_key(w)]
            self.workers.contains_key(w) && self.workers[w].job_ids.contains(job_id)
                ==> after.workers.contains_key(w) && after.workers[w].job_ids.contains(job_id)
    }

    /// The queue stays well-formed while it and the set of jobs that are not
    /// done stay as they are.
    pub proof fn lemma_queue_kept(self, after: CoordinatorView)
        requires
            self.queue_wf(),
            after.job_queue == self.job_queue,
            forall|j: JobId| after.is_queued_job(j) <==> self.is_queued_job(j),
        ensures
            after.queue_wf(),
    {
        assert forall|j: JobId| #[trigger] after.is_queued_job(j) implies after.job_queue.contains(
            j,
        ) by {
            assert(self.is_queued_job(j));
        }
        assert forall|i: int| 0 <= i < after.job_queue.len() implies after.is_queued_job(
            #[trigger] after.job_queue[i],
        ) by {
            assert(self.is_queued_job(self.job_queue[i]));
        }
    }

    /// The holders that a list of tasks names stay registered where the
    /// histories are kept and the list names no new holder but `worker`,
    /// which is registered and has the job in its history.
    pub proof fn lemma_holders_kept(
        self,
        after: CoordinatorView,
        job_id: JobId,
        tasks: Seq<TaskView>,
        then: Seq<TaskView>,
        worker: WorkerId,
    )
        requires
            self.holders_registered(tasks, job_id),
            self.histories_kept(after, job_id),
            holders_from(tasks, then, worker),
            worker != 0 ==> after.workers.contains_key(worker)
                && after.workers[worker].job_ids.contains(job_id),
        ensures
            after.holders_registered(then, job_id),
    {
        assert forall|i: int| 0 <= i < then.len() && (#[trigger] then[i]).worker != 0 implies {
            &&& after.workers.contains_key(then[i].worker)
            &&& after.workers[then[i].worker].job_ids.contains(job_id)
        } by {
            if then[i].worker != worker {
                assert(tasks[i].worker == then[i].worker);
                assert(self.workers.contains_key(tasks[i].worker));
            }
        }
    }

    /// The holders stay registered in every job where no job that has not
    /// ended is new, the histories are kept, and each list of tasks names no
    /// new holder but `worker`, which job `job_id` alone may name anew.
    pub proof fn lemma_holders_wf_kept(self, after: CoordinatorView, job_id: JobId, worker: WorkerId)
        requires
            self.holders_wf(),
            forall|j: JobId| #[trigger]
                after.jobs.contains_key(j) && !after.jobs[j].is_terminal() ==> {
                    &&& self.jobs.contains_key(j)
                    &&& !self.jobs[j].is_terminal()
                    &&& self.histories_kept(after, j)
                    &&& holders_from(
                        self.jobs[j].map_tasks,
                        after.jobs[j].map_tasks,
                        if j == job_id {
                            worker
                        } else {
                            0
                        },
                    )
                    &&& holders_from(
                        self.jobs[j].reduce_tasks,
                        after.jobs[j].reduce_tasks,
                        if j == job_id {
                            worker
                        } else {
                            0
                        },
                    )
                },
            worker != 0 ==> after.workers.contains_key(worker)
                && after.workers[worker].job_ids.contains(job_id),
        ensures
            after.holders_wf(),
    {
        assert forall|j: JobId| #[trigger]
            after.jobs.contains_key(j) && !after.jobs[j].is_terminal() implies {
            &&& after.holders_registered(after.jobs[j].map_tasks, j)
            &&& after.holders_registered(after.jobs[j].reduce_tasks, j)
        } by {
            let w = if j == job_id {
                worker
            } else {
                0
            };
            self.lemma_holders_kept(after, j, self.jobs[j].map_tasks, after.jobs[j].map_tasks, w);
            self.lemma_holders_kept(
                after,
                j,
                self.jobs[j].reduce_tasks,
                after.jobs[j].reduce_tasks,
                w,
            );
        }
    }

    /// The state is well-formed before the first call.
    pub proof fn lemma_empty_wf()
        ensures
            CoordinatorView::empty().wf(),
    {
    }

    /// A registration keeps the state well-formed.
    pub proof fn lemma_register_wf(self, now: u64)
        requires
            self.wf(),
            self.worker_id < u32::MAX,
        ensures
            self.register(now).wf(),
    {
        let after = self.register(now);
        assert(!self.workers.contains_key(after.worker_id));
        self.lemma_queue_kept(after);
        self.lemma_holders_wf_kept(after, 0, 0);
    }

    /// A heartbeat keeps the state well-formed.
    pub proof fn lemma_heartbeat_wf(self, worker_id: WorkerId, now: u64)
        requires
            self.wf(),
        ensures
            self.heartbeat(worker_id, now).wf(),
    {
        let after = self.heartbeat(worker_id, now);
        self.lemma_queue_kept(after);
        self.lemma_holders_wf_kept(after, 0, 0);
    }

    /// A submission keeps the state well-formed.
    pub proof fn lemma_submit_job_wf(
        self,
        known: bool,
        files: Seq<Seq<char>>,
        output_dir: Seq<char>,
        app: Seq<char>,
        n_reduce: usize,
        args: Seq<u8>,
    )
        requires
            self.wf(),
            self.job_id < u32::MAX,
            files.len() <= usize::MAX,
        ensures
            self.submit_job(known, files, output_dir, app, n_reduce, args).wf(),
    {
        let after = self.submit_job(known, files, output_dir, app, n_reduce, args);
        if known {
            let id = after.job_id;
            JobView::lemma_submitted_wf(files, output_dir, app, n_reduce, args);
            assert(!self.jobs.contains_key(id));
            assert(!self.job_queue.contains(id)) by {
                if self.job_queue.contains(id) {
                    let i = choose|i: int| 0 <= i < self.job_queue.len() && self.job_queue[i] == id;
                    assert(self.is_queued_job(self.job_queue[i]));
                }
            }
            assert forall|j: JobId| #[trigger] after.is_queued_job(j) implies after.job_queue.contains(
                j,
            ) by {
                lemma_push_contains(self.job_queue, id, j);
                if j != id {
                    assert(self.is_queued_job(j));
                }
            }
            assert forall|i: int| 0 <= i < after.job_queue.len() implies after.is_queued_job(
                #[trigger] after.job_queue[i],
            ) by {
                if i < self.job_queue.len() {
                    assert(self.is_queued_job(self.job_queue[i]));
                }
            }
            assert forall|j: JobId| #[trigger]
                after.jobs.contains_key(j) && !after.jobs[j].is_terminal() implies {
                &&& after.holders_registered(after.jobs[j].map_tasks, j)
                &&& after.holders_registered(after.jobs[j].reduce_tasks, j)
            } by {
                if j != id {
                    assert(self.jobs.contains_key(j));
                }
            }
        }
    }

    /// After a release from the dead workers that worked on a job, the
    /// holders of its tasks are registered workers that are not dead.
    pub proof fn lemma_released_holders(self, gone: Set<WorkerId>, job_id: JobId, tasks: Seq<TaskView>)
        requires
            self.holders_registered(tasks, job_id),
        ensures
            self.without_workers(gone).holders_registered(
                released(tasks, self.touching(gone, job_id)),
                job_id,
            ),
            self.touching(gone, job_id) =~= Set::empty() ==> self.without_workers(
                gone,
            ).holders_registered(tasks, job_id),
    {
        let after = self.without_workers(gone);
        let dead = self.touching(gone, job_id);
        let freed = released(tasks, dead);
        assert forall|i: int| 0 <= i < freed.len() && (#[trigger] freed[i]).worker != 0 implies {
            &&& after.workers.contains_key(freed[i].worker)
            &&& after.workers[freed[i].worker].job_ids.contains(job_id)
        } by {
            assert(tasks[i].worker != 0);
            assert(!dead.contains(tasks[i].worker));
        }
        if dead =~= Set::empty() {
            assert forall|i: int| 0 <= i < tasks.len() && (#[trigger] tasks[i]).worker != 0 implies {
                &&& after.workers.contains_key(tasks[i].worker)
                &&& after.workers[tasks[i].worker].job_ids.contains(job_id)
            } by {
                assert(!dead.contains(tasks[i].worker));
            }
        }
    }

    /// Declaring workers dead keeps the state well-formed.
    pub proof fn lemma_without_workers_wf(self, gone: Set<WorkerId>)
        requires
            self.wf(),
        ensures
            self.without_workers(gone).wf(),
    {
        let after = self.without_workers(gone);
        assert forall|j: JobId| #[trigger] after.jobs.contains_key(j) implies 0 < j <= after.job_id
            && after.jobs[j].wf() by {
            assert(self.jobs.contains_key(j));
            self.jobs[j].lemma_released_wf(self.touching(gone, j));
        }
        assert forall|j: JobId| after.is_queued_job(j) <==> self.is_queued_job(j) by {
            if self.jobs.contains_key(j) {
                lemma_released_status(self.jobs[j], self.touching(gone, j));
            }
        }
        self.lemma_queue_kept(after);
        assert forall|j: JobId| #[trigger]
            after.jobs.contains_key(j) && !after.jobs[j].is_terminal() implies {
            &&& after.holders_registered(after.jobs[j].map_tasks, j)
            &&& after.holders_registered(after.jobs[j].reduce_tasks, j)
        } by {
            assert(self.jobs.contains_key(j));
            lemma_released_status(self.jobs[j], self.touching(gone, j));
            self.lemma_released_holders(gone, j, self.jobs[j].map_tasks);
            self.lemma_released_holders(gone, j, self.jobs[j].reduce_tasks);
        }
    }

    /// Reaping keeps the state well-formed.
    pub proof fn lemma_reaped_wf(self, now: u64)
        requires
            self.wf(),
        ensures
            self.reaped(now).wf(),
    {
        self.lemma_without_workers_wf(self.stale_workers(now));
    }

    /// Answering a registered worker from a job keeps the state well-formed.
    pub proof fn lemma_handed_wf(self, job_id: JobId, worker_id: WorkerId)
        requires
            self.wf(),
            self.jobs.contains_key(job_id),
            self.workers.contains_key(worker_id),
        ensures
            self.handed(job_id, worker_id).wf(),
    {
        let after = self.handed(job_id, worker_id);
        let job = self.jobs[job_id];
        let reply = job.offer(job_id);
        job.lemma_dispatched_wf(worker_id);
        lemma_first_idle_found(job.map_tasks);
        lemma_first_idle_found(job.reduce_tasks);
        self.lemma_queue_kept(after);
        assert forall|j: JobId| self.histories_kept(after, j) by {
            assert forall|w: WorkerId|
                self.workers.contains_key(w) && self.workers[w].job_ids.contains(
                    j,
                ) implies after.workers.contains_key(w) && after.workers[w].job_ids.contains(
                j,
            ) by {
                if w == worker_id && !reply.wait {
                    lemma_push_contains(self.workers[w].job_ids, job_id, j);
                }
            }
        }
        if !reply.wait {
            lemma_push_contains(self.workers[worker_id].job_ids, job_id, job_id);
        }
        self.lemma_holders_wf_kept(
            after,
            job_id,
            if reply.wait {
                0
            } else {
                worker_id
            },
        );
    }

    /// Handing out a task keeps the state well-formed.
    pub proof fn lemma_get_task_wf(self, worker_id: WorkerId, now: u64)
        requires
            self.wf(),
        ensures
            self.get_task(worker_id, now).wf(),
    {
        let live = self.reaped(now);
        self.lemma_reaped_wf(now);
        live.lemma_next_open_job_is_open();
        if live.workers.contains_key(worker_id) {
            if let Some(job_id) = live.next_open_job() {
                live.lemma_handed_wf(job_id, worker_id);
            }
        }
    }

    /// A finished task keeps the state well-formed.
    pub proof fn lemma_finish_task_wf(
        self,
        worker_id: WorkerId,
        job_id: JobId,
        number: TaskNumber,
        reduce: bool,
    )
        requires
            self.wf(),
        ensures
            self.finish_task(worker_id, job_id, number, reduce).wf(),
    {
        let after = self.finish_task(worker_id, job_id, number, reduce);
        if self.finish_task_reply(worker_id, job_id, number, reduce) is Ok {
            let job = self.jobs[job_id];
            let then = job.finished(number, reduce);
            job.lemma_finished_wf(number, reduce);
            lemma_position_found(job.map_tasks, number);
            lemma_position_found(job.reduce_tasks, number);
            let done_now = then.status == JobStatus::Done && job.status != JobStatus::Done;
            if done_now {
                lemma_without_no_duplicates(self.job_queue, job_id);
                assert forall|j: JobId| #[trigger] after.is_queued_job(j) implies after.job_queue.contains(
                    j,
                ) by {
                    assert(self.is_queued_job(j));
                    lemma_without_contains(self.job_queue, job_id, j);
                }
                assert forall|i: int| 0 <= i < after.job_queue.len() implies after.is_queued_job(
                    #[trigger] after.job_queue[i],
                ) by {
                    let j = after.job_queue[i];
                    lemma_without_contains(self.job_queue, job_id, j);
                    let k = choose|k: int| 0 <= k < self.job_queue.len() && self.job_queue[k] == j;
                    assert(self.is_queued_job(self.job_queue[k]));
                }
            } else {
                self.lemma_queue_kept(after);
            }
            assert forall|j: JobId| j != job_id || !done_now implies self.histories_kept(
                after,
                j,
            ) by {
                assert forall|w: WorkerId|
                    self.workers.contains_key(w) && self.workers[w].job_ids.contains(
                        j,
                    ) implies after.workers.contains_key(w) && after.workers[w].job_ids.contains(
                    j,
                ) by {
                    if done_now {
                        lemma_without_contains(self.workers[w].job_ids, job_id, j);
                    }
                }
            }
            self.lemma_holders_wf_kept(after, job_id, 0);
        }
    }

    /// A failed task keeps the state well-formed.
    pub proof fn lemma_fail_task_wf(
        self,
        worker_id: WorkerId,
        job_id: JobId,
        number: TaskNumber,
        reduce: bool,
        retry: bool,
        error: Seq<char>,
    )
        requires
            self.wf(),
        ensures
            self.fail_task(worker_id, job_id, number, reduce, retry, error).wf(),
    {
        let after = self.fail_task(worker_id, job_id, number, reduce, retry, error);
        if self.jobs.contains_key(job_id) {
            let job = self.jobs[job_id];
            job.lemma_failed_wf(number, reduce, retry, error);
            lemma_position_found(job.map_tasks, number);
            lemma_position_found(job.reduce_tasks, number);
            self.lemma_queue_kept(after);
            self.lemma_holders_wf_kept(after, job_id, 0);
        }
    }
}

} // verus!
