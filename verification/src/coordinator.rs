//! The coordinator: the table of jobs, the table of workers and the queue of
//! jobs, and the calls that clients and workers make on them.

use crate::ids::{lemma_push_contains, queue_remove};
use crate::job::{Job, JobStatus, JobView};
use crate::message::{outcome, texts, CoordinatorError, GetTaskReply, PollJobReply};
use crate::state::CoordinatorView;
use crate::task::{JobId, TaskNumber, WorkerId};
use crate::worker::{Worker, WorkerStatus, WorkerView};
use std::collections::HashMap;
use std::collections::VecDeque;
use vstd::prelude::*;
use vstd::std_specs::iter::IteratorSpec;

verus! {

/// Everything the coordinator knows. A call is one step from one value of
/// this state to the next.
pub struct CoordinatorData {
    /// The identifier given to the last worker that registered.
    pub worker_id: WorkerId,
    pub workers: HashMap<WorkerId, Worker>,
    pub jobs: HashMap<JobId, Job>,
    /// The identifier of the last job that was entered.
    pub job_id: JobId,
    pub job_queue: VecDeque<JobId>,
}

/// The views of a table of workers.
pub open spec fn worker_views(workers: Map<WorkerId, Worker>) -> Map<WorkerId, WorkerView> {
    Map::new(|w: WorkerId| workers.contains_key(w), |w: WorkerId| workers[w]@)
}

/// The views of a table of jobs.
pub open spec fn job_views(jobs: Map<JobId, Job>) -> Map<JobId, JobView> {
    Map::new(|j: JobId| jobs.contains_key(j), |j: JobId| jobs[j]@)
}

impl View for CoordinatorData {
    type V = CoordinatorView;

    open spec fn view(&self) -> CoordinatorView {
        CoordinatorView {
            worker_id: self.worker_id,
            workers: worker_views(self.workers@),
            jobs: job_views(self.jobs@),
            job_id: self.job_id,
            job_queue: self.job_queue@,
        }
    }
}

/// `app` is one of the registered application names `apps`.
pub open spec fn is_registered_app(apps: Seq<Seq<char>>, app: Seq<char>) -> bool {
    apps.contains(app)
}

/// Tells whether `app` is one of the registered application names `apps`.
pub fn check_registered_app(apps: &Vec<String>, app: &String) -> (known: bool)
    ensures
        known == is_registered_app(texts(apps@), app@),
{
    let mut i: usize = 0;
    while i < apps.len()
        invariant
            i <= apps.len(),
            forall|k: int| 0 <= k < i ==> texts(apps@)[k] != app@,
        decreases apps.len() - i,
    {
        if apps[i] == *app {
            assert(texts(apps@)[i as int] == app@);
            return true;
        }
        i += 1;
    }
    false
}

impl CoordinatorData {
    /// A coordinator with no job and no worker.
    pub fn new() -> (data: CoordinatorData)
        ensures
            data@ == CoordinatorView::empty(),
            data@.wf(),
    {
        let data = CoordinatorData {
            worker_id: 0,
            workers: HashMap::new(),
            jobs: HashMap::new(),
            job_id: 0,
            job_queue: VecDeque::new(),
        };
        proof {
            assert(data@.workers =~= Map::empty());
            assert(data@.jobs =~= Map::empty());
            CoordinatorView::lemma_empty_wf();
        }
        data
    }

    /// Registers a worker at time `now` and returns its identifier.
    pub fn register(&mut self, now: u64) -> (worker_id: WorkerId)
        requires
            old(self)@.wf(),
            old(self)@.worker_id < u32::MAX,
        ensures
            worker_id == old(self)@.worker_id + 1,
            final(self)@ == old(self)@.register(now),
            final(self)@.wf(),
    {
        broadcast use vstd::std_specs::hash::group_hash_axioms;

        self.worker_id = self.worker_id + 1;
        let worker_id = self.worker_id;
        self.workers.insert(worker_id, Worker::new(worker_id, now));
        assert(self@.workers =~= old(self)@.register(now).workers);
        proof {
            old(self)@.lemma_register_wf(now);
        }
        worker_id
    }

    /// Records a heartbeat of worker `worker_id` at time `now`.
    pub fn heartbeat(&mut self, worker_id: WorkerId, now: u64) -> (reply: Result<
        (),
        CoordinatorError,
    >)
        requires
            old(self)@.wf(),
        ensures
            reply == old(self)@.heartbeat_reply(worker_id),
            final(self)@ == old(self)@.heartbeat(worker_id, now),
            final(self)@.wf(),
    {
        broadcast use vstd::std_specs::hash::group_hash_axioms;

        proof {
            old(self)@.lemma_heartbeat_wf(worker_id, now);
        }

        match self.workers.remove(&worker_id) {
            Some(mut worker) => {
                worker.heartbeat_time = now;
                self.workers.insert(worker_id, worker);
                assert(self@.workers =~= old(self)@.heartbeat(worker_id, now).workers);
                Ok(())
            },
            None => {
                assert(self@.workers =~= old(self)@.workers);
                Err(CoordinatorError::WorkerNotFound)
            },
        }
    }

    /// Tells a client how job `job_id` is doing.
    pub fn poll_job(&self, job_id: JobId) -> (reply: Result<PollJobReply, CoordinatorError>)
        requires
            self@.wf(),
        ensures
            outcome(reply) == self@.poll_job_reply(job_id),
    {
        broadcast use vstd::std_specs::hash::group_hash_axioms;

        match self.jobs.get(&job_id) {
            None => Err(CoordinatorError::JobNotFound),
            Some(job) => {
                let mut reply = PollJobReply { done: false, failed: false, errors: Vec::new() };
                match job.status {
                    JobStatus::Done => {
                        reply.done = true;
                    },
                    JobStatus::Failed => {
                        reply.done = true;
                        reply.failed = true;
                        match &job.error_message {
                            Some(message) => {
                                reply.errors.push(message.clone());
                            },
                            None => {},
                        }
                    },
                    _ => {},
                }
                assert(reply@.errors =~= self@.poll_job_reply(job_id)->Ok_0.errors);
                Ok(reply)
            },
        }
    }

    /// Enters a job for application `app` and returns its identifier; the job
    /// is refused unless `app` is one of the registered applications `apps`.
    pub fn submit_job(
        &mut self,
        apps: &Vec<String>,
        files: Vec<String>,
        output_dir: String,
        app: String,
        n_reduce: u32,
        args: Vec<u8>,
    ) -> (reply: Result<JobId, CoordinatorError>)
        requires
            old(self)@.wf(),
            old(self)@.job_id < u32::MAX,
        ensures
            reply == old(self)@.submit_job_reply(is_registered_app(texts(apps@), app@)),
            final(self)@ == old(self)@.submit_job(
                is_registered_app(texts(apps@), app@),
                texts(files@),
                output_dir@,
                app@,
                n_reduce as usize,
                args@,
            ),
            final(self)@.wf(),
    {
        broadcast use vstd::std_specs::hash::group_hash_axioms;

        proof {
            assert(texts(files@).len() == files.len());
            old(self)@.lemma_submit_job_wf(
                is_registered_app(texts(apps@), app@),
                texts(files@),
                output_dir@,
                app@,
                n_reduce as usize,
                args@,
            );
        }

        if !check_registered_app(apps, &app) {
            return Err(CoordinatorError::UnknownApplication);
        }
        self.job_id = self.job_id + 1;
        let job_id = self.job_id;
        let job = Job::new(files, output_dir, app, n_reduce as usize, args);
        self.jobs.insert(job_id, job);
        self.job_queue.push_back(job_id);
        assert(self@.jobs =~= old(self)@.jobs.insert(job_id, job@));
        Ok(job_id)
    }

    /// The first job of the queue that the scheduler may pick.
    pub fn next_open_job(&self) -> (picked: Option<JobId>)
        ensures
            picked == self@.next_open_job(),
    {
        broadcast use vstd::std_specs::hash::group_hash_axioms;

        let mut i: usize = 0;
        while i < self.job_queue.len()
            invariant
                i <= self.job_queue.len(),
                forall|k: int| 0 <= k < i ==> !self@.is_open(#[trigger] self@.job_queue[k]),
            decreases self.job_queue.len() - i,
        {
            let job_id = self.job_queue[i];
            match self.jobs.get(&job_id) {
                Some(job) => {
                    if !job.is_full {
                        proof {
                            self@.lemma_next_open_is(i as int);
                        }
                        return Some(job_id);
                    }
                },
                None => {},
            }
            i += 1;
        }
        assert forall|k: int| !self@.is_next_open(k) by {
            if 0 <= k < self@.job_queue.len() {
                assert(!self@.is_open(self@.job_queue[k]));
            }
        }
        None
    }

    /// The identifiers of the registered workers, in no particular order.
    pub fn worker_ids(&self) -> (ids: Vec<WorkerId>)
        ensures
            ids@.no_duplicates(),
            forall|w: WorkerId| ids@.contains(w) <==> self@.workers.contains_key(w),
    {
        broadcast use vstd::std_specs::hash::group_hash_axioms;

        let mut ids: Vec<WorkerId> = Vec::new();
        let ghost keys = self.workers.keys().remaining();
        for id in it: self.workers.keys()
            invariant
                it.seq() == keys,
                ids@.len() == it.index(),
                forall|i: int| 0 <= i < it.index() ==> ids@[i] == *#[trigger] keys[i],
        {
            ids.push(*id);
        }
        assert(ids@ =~= keys.unref());
        assert forall|w: WorkerId| ids@.contains(w) <==> self@.workers.contains_key(w) by {
            assert(keys.unref().to_set().contains(w) <==> self.workers@.dom().contains(w));
        }
        assert(ids@.no_duplicates()) by {
            assert forall|i: int, j: int| 0 <= i < ids@.len() && 0 <= j < ids@.len() && i != j implies ids@[i] != ids@[j] by {
                assert(keys[i] != keys[j]);
            }
        }
        ids
    }

    /// Strikes job `job_id` from the history of every worker.
    pub fn forget_job(&mut self, job_id: JobId)
        ensures
            final(self)@ == (CoordinatorView {
                workers: Map::new(
                    |w: WorkerId| old(self)@.workers.contains_key(w),
                    |w: WorkerId| old(self)@.workers[w].forgetting(job_id),
                ),
                ..old(self)@
            }),
    {
        broadcast use vstd::std_specs::hash::group_hash_axioms;

        let ghost before = self@;
        let ids = self.worker_ids();
        let mut i: usize = 0;
        while i < ids.len()
            invariant
                i <= ids.len(),
                ids@.no_duplicates(),
                forall|w: WorkerId| ids@.contains(w) <==> before.workers.contains_key(w),
                self@.worker_id == before.worker_id,
                self@.job_id == before.job_id,
                self@.job_queue == before.job_queue,
                self@.jobs == before.jobs,
                forall|w: WorkerId| self@.workers.contains_key(w) <==> before.workers.contains_key(w),
                forall|w: WorkerId| #[trigger]
                    before.workers.contains_key(w) ==> self@.workers[w] == if ids@.take(
                        i as int,
                    ).contains(w) {
                        before.workers[w].forgetting(job_id)
                    } else {
                        before.workers[w]
                    },
            decreases ids.len() - i,
        {
            let id = ids[i];
            let ghost prior = self@;
            proof {
                assert(ids@.take(i + 1) =~= ids@.take(i as int).push(id));
                assert forall|w: WorkerId|
                    ids@.take(i + 1).contains(w) <==> ids@.take(i as int).contains(w) || w == id by {
                    lemma_push_contains(ids@.take(i as int), id, w);
                }
                assert(!ids@.take(i as int).contains(id)) by {
                    if ids@.take(i as int).contains(id) {
                        let k = choose|k: int| 0 <= k < i && ids@.take(i as int)[k] == id;
                        assert(ids@[k] == ids@[i as int]);
                    }
                }
                assert(ids@.contains(id));
            }
            match self.workers.remove(&id) {
                Some(mut worker) => {
                    assert(worker@ == prior.workers[id]);
                    worker.forget(job_id);
                    self.workers.insert(id, worker);
                    assert(self@.workers =~= prior.workers.insert(id, worker@));
                },
                None => {
                    assert(self@.workers =~= prior.workers);
                },
            }
            assert(self@.jobs =~= prior.jobs);
            i += 1;
        }
        assert(ids@.take(i as int) =~= ids@);
        assert(self@.workers =~= Map::new(
            |w: WorkerId| before.workers.contains_key(w),
            |w: WorkerId| before.workers[w].forgetting(job_id),
        ));
    }

    /// Answers worker `worker_id`, which asks for a task at time `now`.
    /// Workers presumed dead are reaped first. Then the first job of the
    /// queue that is not passed over hands out the idle task of its phase
    /// that has the least number.
    pub fn get_task(&mut self, worker_id: WorkerId, now: u64) -> (reply: Result<
        GetTaskReply,
        CoordinatorError,
    >)
        requires
            old(self)@.wf(),
        ensures
            outcome(reply) == old(self)@.get_task_reply(worker_id, now),
            final(self)@ == old(self)@.get_task(worker_id, now),
            final(self)@.wf(),
    {
        broadcast use vstd::std_specs::hash::group_hash_axioms;

        proof {
            old(self)@.lemma_get_task_wf(worker_id, now);
        }

        self.reap_stale_workers(now);
        let ghost live = self@;
        if !self.workers.contains_key(&worker_id) {
            return Err(CoordinatorError::WorkerNotFound);
        }
        let job_id = match self.next_open_job() {
            Some(job_id) => job_id,
            None => {
                return Ok(GetTaskReply::idle());
            },
        };
        proof {
            live.lemma_next_open_job_is_open();
        }
        let mut job = self.jobs.remove(&job_id).unwrap();
        let reply = job.dispatch(job_id, worker_id);
        self.jobs.insert(job_id, job);
        assert(self@.jobs =~= live.jobs.insert(job_id, job@));
        if !reply.wait {
            let mut worker = self.workers.remove(&worker_id).unwrap();
            worker.engage(job_id, reply.task, reply.reduce);
            self.workers.insert(worker_id, worker);
            assert(self@.workers =~= live.workers.insert(worker_id, worker@));
        } else {
            assert(self@.workers =~= live.workers);
        }
        Ok(reply)
    }

    /// Records that worker `worker_id` finished task `task` of job `job_id`,
    /// a reduce task if `reduce` and a map task if not.
    pub fn finish_task(
        &mut self,
        worker_id: WorkerId,
        job_id: JobId,
        task: TaskNumber,
        reduce: bool,
    ) -> (reply: Result<(), CoordinatorError>)
        requires
            old(self)@.wf(),
        ensures
            reply == old(self)@.finish_task_reply(worker_id, job_id, task, reduce),
            final(self)@ == old(self)@.finish_task(worker_id, job_id, task, reduce),
            final(self)@.wf(),
    {
        broadcast use vstd::std_specs::hash::group_hash_axioms;

        proof {
            old(self)@.lemma_finish_task_wf(worker_id, job_id, task, reduce);
        }

        let ghost before = self@;
        if !self.workers.contains_key(&worker_id) {
            return Err(CoordinatorError::WorkerNotFound);
        }
        match self.jobs.get(&job_id) {
            None => {
                return Err(CoordinatorError::JobNotFound);
            },
            Some(job) => {
                if !job.is_terminal() && !job.has_task(task, reduce) {
                    return Err(CoordinatorError::TaskNotFound);
                }
            },
        }
        let mut job = self.jobs.remove(&job_id).unwrap();
        let was_done = job.status == JobStatus::Done;
        job.finish(task, reduce);
        let done_now = job.status == JobStatus::Done && !was_done;
        self.jobs.insert(job_id, job);
        assert(self@.jobs =~= before.jobs.insert(job_id, job@));
        let mut worker = self.workers.remove(&worker_id).unwrap();
        worker.worker_status = WorkerStatus::Idle;
        self.workers.insert(worker_id, worker);
        assert(self@.workers =~= before.workers.insert(worker_id, worker@));
        if done_now {
            queue_remove(&mut self.job_queue, job_id);
            self.forget_job(job_id);
            assert(self@.workers =~= before.finish_task(worker_id, job_id, task, reduce).workers);
        }
        Ok(())
    }

    /// Records that worker `worker_id` failed at task `task` of job `job_id`
    /// with `error`. The task is handed out again if `retry`; if not, the job
    /// is aborted.
    pub fn fail_task(
        &mut self,
        worker_id: WorkerId,
        job_id: JobId,
        task: TaskNumber,
        reduce: bool,
        retry: bool,
        error: String,
    ) -> (reply: Result<(), CoordinatorError>)
        requires
            old(self)@.wf(),
        ensures
            reply == old(self)@.fail_task_reply(job_id, reduce, retry),
            final(self)@ == old(self)@.fail_task(worker_id, job_id, task, reduce, retry, error@),
            final(self)@.wf(),
    {
        broadcast use vstd::std_specs::hash::group_hash_axioms;

        proof {
            old(self)@.lemma_fail_task_wf(worker_id, job_id, task, reduce, retry, error@);
        }

        let ghost before = self@;
        let mut job = match self.jobs.remove(&job_id) {
            Some(job) => job,
            None => {
                assert(self@.jobs =~= before.jobs);
                return Err(CoordinatorError::JobNotFound);
            },
        };
        let reply = job.fail(task, reduce, retry, error);
        self.jobs.insert(job_id, job);
        assert(self@.jobs =~= before.jobs.insert(job_id, job@));
        let rejected = match reply {
            Err(CoordinatorError::MapPhaseIncomplete) => true,
            _ => false,
        };
        if !rejected {
            match self.workers.remove(&worker_id) {
                Some(mut worker) => {
                    worker.worker_status = WorkerStatus::Idle;
                    worker.job_id = 0;
                    worker.task_number = 0;
                    self.workers.insert(worker_id, worker);
                    assert(self@.workers =~= before.workers.insert(worker_id, worker@));
                },
                None => {
                    assert(self@.workers =~= before.workers);
                },
            }
        }
        reply
    }
}

/// A coordinator. Its state is reached through the calls only, so it is
/// well-formed at every call, whoever the caller is.
pub struct Coordinator {
    coordinatordata: CoordinatorData,
}

impl View for Coordinator {
    type V = CoordinatorView;

    closed spec fn view(&self) -> CoordinatorView {
        self.coordinatordata@
    }
}

impl Coordinator {
    #[verifier::type_invariant]
    spec fn well_formed(self) -> bool {
        self.coordinatordata@.wf()
    }

    /// A coordinator with no job and no worker.
    pub fn new() -> (coordinator: Coordinator)
        ensures
            coordinator@ == CoordinatorView::empty(),
    {
        Coordinator { coordinatordata: CoordinatorData::new() }
    }

    /// The state, to read.
    pub fn data(&self) -> (data: &CoordinatorData)
        ensures
            data@ == self@,
            data@.wf(),
    {
        proof {
            use_type_invariant(self);
        }
        &self.coordinatordata
    }

    /// Takes the state out to work on it, and leaves an empty one: the state
    /// in place is well-formed whatever happens meanwhile.
    fn take(&mut self) -> (data: CoordinatorData)
        ensures
            data@ == old(self)@,
            data@.wf(),
    {
        proof {
            use_type_invariant(&*self);
        }
        let mut data = CoordinatorData::new();
        std::mem::swap(&mut self.coordinatordata, &mut data);
        data
    }

    /// Enters a job for application `app` and returns its identifier; the job
    /// is refused unless `app` is one of the registered applications `apps`.
    pub fn submit_job(
        &mut self,
        apps: &Vec<String>,
        files: Vec<String>,
        output_dir: String,
        app: String,
        n_reduce: u32,
        args: Vec<u8>,
    ) -> (reply: Result<JobId, CoordinatorError>)
        requires
            old(self)@.job_id < u32::MAX,
        ensures
            reply == old(self)@.submit_job_reply(is_registered_app(texts(apps@), app@)),
            final(self)@ == old(self)@.submit_job(
                is_registered_app(texts(apps@), app@),
                texts(files@),
                output_dir@,
                app@,
                n_reduce as usize,
                args@,
            ),
            final(self)@.wf(),
    {
        let mut data = self.take();
        let reply = data.submit_job(apps, files, output_dir, app, n_reduce, args);
        self.coordinatordata = data;
        reply
    }

    /// Tells a client how job `job_id` is doing.
    pub fn poll_job(&self, job_id: JobId) -> (reply: Result<PollJobReply, CoordinatorError>)
        ensures
            outcome(reply) == self@.poll_job_reply(job_id),
    {
        self.data().poll_job(job_id)
    }

    /// Registers a worker at time `now` and returns its identifier.
    pub fn register(&mut self, now: u64) -> (worker_id: WorkerId)
        requires
            old(self)@.worker_id < u32::MAX,
        ensures
            worker_id == old(self)@.worker_id + 1,
            final(self)@ == old(self)@.register(now),
            final(self)@.wf(),
    {
        let mut data = self.take();
        let worker_id = data.register(now);
        self.coordinatordata = data;
        worker_id
    }

    /// Records a heartbeat of worker `worker_id` at time `now`.
    pub fn heartbeat(&mut self, worker_id: WorkerId, now: u64) -> (reply: Result<
        (),
        CoordinatorError,
    >)
        ensures
            reply == old(self)@.heartbeat_reply(worker_id),
            final(self)@ == old(self)@.heartbeat(worker_id, now),
            final(self)@.wf(),
    {
        let mut data = self.take();
        let reply = data.heartbeat(worker_id, now);
        self.coordinatordata = data;
        reply
    }

    /// Answers worker `worker_id`, which asks for a task at time `now`.
    /// Workers presumed dead are reaped first. Then the first job of the
    /// queue that is not passed over hands out the idle task of its phase
    /// that has the least number.
    pub fn get_task(&mut self, worker_id: WorkerId, now: u64) -> (reply: Result<
        GetTaskReply,
        CoordinatorError,
    >)
        ensures
            outcome(reply) == old(self)@.get_task_reply(worker_id, now),
            final(self)@ == old(self)@.get_task(worker_id, now),
            final(self)@.wf(),
    {
        let mut data = self.take();
        let reply = data.get_task(worker_id, now);
        self.coordinatordata = data;
        reply
    }

    /// Records that worker `worker_id` finished task `task` of job `job_id`,
    /// a reduce task if `reduce` and a map task if not.
    pub fn finish_task(
        &mut self,
        worker_id: WorkerId,
        job_id: JobId,
        task: TaskNumber,
        reduce: bool,
    ) -> (reply: Result<(), CoordinatorError>)
        ensures
            reply == old(self)@.finish_task_reply(worker_id, job_id, task, reduce),
            final(self)@ == old(self)@.finish_task(worker_id, job_id, task, reduce),
            final(self)@.wf(),
    {
        let mut data = self.take();
        let reply = data.finish_task(worker_id, job_id, task, reduce);
        self.coordinatordata = data;
        reply
    }

    /// Records that worker `worker_id` failed at task `task` of job `job_id`
    /// with `error`. The task is handed out again if `retry`; if not, the job
    /// is aborted.
    pub fn fail_task(
        &mut self,
        worker_id: WorkerId,
        job_id: JobId,
        task: TaskNumber,
        reduce: bool,
        retry: bool,
        error: String,
    ) -> (reply: Result<(), CoordinatorError>)
        ensures
            reply == old(self)@.fail_task_reply(job_id, reduce, retry),
            final(self)@ == old(self)@.fail_task(worker_id, job_id, task, reduce, retry, error@),
            final(self)@.wf(),
    {
        let mut data = self.take();
        let reply = data.fail_task(worker_id, job_id, task, reduce, retry, error);
        self.coordinatordata = data;
        reply
    }
}

} // verus!
