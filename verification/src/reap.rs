//! Reaping: workers that stay silent are declared dead, their records are
//! discarded, and the jobs they worked on get their tasks back.

use crate::coordinator::CoordinatorData;
use crate::ids::lemma_push_contains;
use crate::job::{assignments_without, JobStatus, JobView};
use crate::message::MapTaskAssignment;
use crate::state::CoordinatorView;
use crate::task::{held_by_any, released, JobId, TaskView, WorkerId};
use vstd::prelude::*;
use vstd::std_specs::iter::IteratorSpec;

verus! {

/// Dropping the entries of some workers and then of others is dropping the
/// entries of all of them.
pub proof fn lemma_assignments_without_twice(
    list: Seq<MapTaskAssignment>,
    a: Set<WorkerId>,
    b: Set<WorkerId>,
)
    ensures
        assignments_without(assignments_without(list, a), b) == assignments_without(
            list,
            a.union(b),
        ),
    decreases list.len(),
{
    if list.len() > 0 {
        lemma_assignments_without_twice(list.drop_last(), a, b);
        if !a.contains(list.last().worker_id) {
            let kept = assignments_without(list.drop_last(), a);
            assert(kept.push(list.last()).drop_last() =~= kept);
        }
    }
}

/// Releasing a job from some workers and then from others is releasing it
/// from all of them.
pub proof fn lemma_released_twice(job: JobView, a: Set<WorkerId>, b: Set<WorkerId>)
    ensures
        job.released(a).released(b) == job.released(a.union(b)),
{
    let both = a.union(b);
    if job.is_terminal() {
    } else if a =~= Set::empty() {
        assert(both =~= b);
    } else if b =~= Set::empty() {
        assert(both =~= a);
    } else {
        let w = choose|w: WorkerId| a.contains(w);
        assert(a.contains(w)) by {
            if forall|w: WorkerId| !a.contains(w) {
                assert(a =~= Set::empty());
            }
        }
        assert(both.contains(w));
        lemma_tasks_released_twice(job.map_tasks, a, b);
        lemma_tasks_released_twice(job.reduce_tasks, a, b);
        lemma_assignments_without_twice(job.map_task_assignments, a, b);
    }
}

/// Releasing tasks from some workers and then from others is releasing them
/// from all of them, and a task is held by one of all of them just when it
/// was held by one of the first or is held by one of the others afterwards.
pub proof fn lemma_tasks_released_twice(tasks: Seq<TaskView>, a: Set<WorkerId>, b: Set<WorkerId>)
    ensures
        released(released(tasks, a), b) == released(tasks, a.union(b)),
        held_by_any(tasks, a.union(b)) <==> held_by_any(tasks, a) || held_by_any(
            released(tasks, a),
            b,
        ),
{
    let once = released(tasks, a);
    assert(released(once, b) =~= released(tasks, a.union(b)));
    if held_by_any(tasks, a.union(b)) {
        let i = choose|i: int| 0 <= i < tasks.len() && a.union(b).contains(tasks[i].worker);
        if a.contains(tasks[i].worker) {
        } else {
            assert(b.contains(once[i].worker));
        }
    }
    if held_by_any(once, b) {
        let i = choose|i: int| 0 <= i < once.len() && b.contains(once[i].worker);
        if !a.contains(tasks[i].worker) {
            assert(a.union(b).contains(tasks[i].worker));
        }
    }
    if held_by_any(tasks, a) {
        let i = choose|i: int| 0 <= i < tasks.len() && a.contains(tasks[i].worker);
        assert(a.union(b).contains(tasks[i].worker));
    }
}

/// A release neither ends a job nor revives one.
pub proof fn lemma_released_status(job: JobView, gone: Set<WorkerId>)
    ensures
        job.released(gone).is_terminal() == job.is_terminal(),
        job.released(gone).status == JobStatus::Done <==> job.status == JobStatus::Done,
{
}

impl CoordinatorView {
    /// Declaring some workers dead and then one more is declaring all of
    /// them dead.
    pub proof fn lemma_without_workers_step(self, gone: Set<WorkerId>, w: WorkerId)
        ensures
            self.without_workers(gone).without_workers(set![w]) == self.without_workers(
                gone.insert(w),
            ),
    {
        let once = self.without_workers(gone);
        let twice = once.without_workers(set![w]);
        let both = self.without_workers(gone.insert(w));
        assert(twice.workers =~= both.workers);
        assert forall|j: JobId| self.jobs.contains_key(j) implies twice.jobs[j] == both.jobs[j] by {
            lemma_released_twice(self.jobs[j], self.touching(gone, j), once.touching(set![w], j));
            assert(self.touching(gone, j).union(once.touching(set![w], j)) =~= self.touching(
                gone.insert(w),
                j,
            ));
        }
        assert(twice.jobs =~= both.jobs);
    }
}

impl CoordinatorData {
    /// The registered workers that are presumed dead at time `now`, in no
    /// particular order.
    pub fn stale_workers(&self, now: u64) -> (stale: Vec<WorkerId>)
        ensures
            stale@.no_duplicates(),
            stale@.to_set() == self@.stale_workers(now),
    {
        broadcast use vstd::std_specs::hash::group_hash_axioms;

        let mut stale: Vec<WorkerId> = Vec::new();
        let ghost ids = self.workers.keys().remaining();
        for id in it: self.workers.keys()
            invariant
                it.seq() == ids,
                stale@.no_duplicates(),
                forall|w: WorkerId| #[trigger]
                    stale@.contains(w) ==> self@.stale_workers(now).contains(w) && exists|i: int|
                        0 <= i < it.index() && *ids[i] == w,
                forall|i: int|
                    0 <= i < it.index() && self@.stale_workers(now).contains(*ids[i])
                        ==> stale@.contains(*#[trigger] ids[i]),
        {
            assert(ids.unref()[it.index()] == *id);
            assert(ids.unref().to_set().contains(*id));
            match self.workers.get(id) {
                Some(worker) => {
                    if worker.is_stale(now) {
                        assert(!stale@.contains(*id)) by {
                            if stale@.contains(*id) {
                                let i = choose|i: int| 0 <= i < it.index() && *ids[i] == *id;
                                assert(ids[i] == ids[it.index()]);
                            }
                        }
                        let ghost prior = stale@;
                        stale.push(*id);
                        assert forall|w: WorkerId| #[trigger] stale@.contains(w) implies prior.contains(
                            w,
                        ) || w == *id by {
                            let i = choose|i: int| 0 <= i < stale@.len() && stale@[i] == w;
                            if i < prior.len() {
                                assert(prior[i] == w);
                            }
                        }
                        assert forall|w: WorkerId| prior.contains(w) implies stale@.contains(w) by {
                            let i = choose|i: int| 0 <= i < prior.len() && prior[i] == w;
                            assert(stale@[i] == w);
                        }
                        assert(stale@[prior.len() as int] == *id);
                    }
                },
                None => {},
            }
        }
        assert forall|w: WorkerId| self@.stale_workers(now).contains(w) implies stale@.contains(
            w,
        ) by {
            assert(ids.unref().to_set().contains(w));
            let i = choose|i: int| 0 <= i < ids.unref().len() && ids.unref()[i] == w;
            assert(*ids[i] == w);
        }
        assert(stale@.to_set() =~= self@.stale_workers(now));
        stale
    }

    /// Declares worker `id` dead: discards its record and releases from it
    /// every job of its history that has not ended. Such a job is considered
    /// by the scheduler again. The queue is left alone: it holds every job
    /// that is not done.
    pub fn discard_worker(&mut self, id: WorkerId)
        ensures
            final(self)@ == old(self)@.without_workers(set![id]),
    {
        broadcast use vstd::std_specs::hash::group_hash_axioms;

        let ghost before = self@;
        match self.workers.remove(&id) {
            None => {
                assert(self@.workers =~= before.workers.remove_keys(set![id]));
                assert forall|j: JobId| before.jobs.contains_key(j) implies before.jobs[j]
                    == before.jobs[j].released(before.touching(set![id], j)) by {
                    assert(before.touching(set![id], j) =~= Set::empty());
                }
                assert(self@.jobs =~= before.without_workers(set![id]).jobs);
            },
            Some(worker) => {
                assert(self@.workers =~= before.workers.remove_keys(set![id]));
                assert(worker@ == before.workers[id]);
                let mut k: usize = 0;
                while k < worker.job_ids.len()
                    invariant
                        k <= worker.job_ids.len(),
                        before.workers.contains_key(id),
                        worker@ == before.workers[id],
                        self@.worker_id == before.worker_id,
                        self@.job_id == before.job_id,
                        self@.job_queue == before.job_queue,
                        self@.workers == before.workers.remove_keys(set![id]),
                        forall|j: JobId|
                            self@.jobs.contains_key(j) <==> before.jobs.contains_key(j),
                        forall|j: JobId| #[trigger]
                            before.jobs.contains_key(j) ==> self@.jobs[j]
                                == before.jobs[j].released(
                                if worker@.job_ids.take(k as int).contains(j) {
                                    set![id]
                                } else {
                                    Set::empty()
                                },
                            ),
                    decreases worker.job_ids.len() - k,
                {
                    let job_id = worker.job_ids[k];
                    let ghost prior = self@;
                    let ghost ids = worker@.job_ids;
                    proof {
                        assert(ids.take(k + 1) =~= ids.take(k as int).push(job_id));
                        assert forall|j: JobId|
                            ids.take(k + 1).contains(j) <==> ids.take(k as int).contains(j) || j
                                == job_id by {
                            lemma_push_contains(ids.take(k as int), job_id, j);
                        }
                    }
                    match self.jobs.remove(&job_id) {
                        Some(mut job) => {
                            let ghost so_far: Set<WorkerId> = if ids.take(k as int).contains(job_id) {
                                set![id]
                            } else {
                                Set::empty()
                            };
                            assert(prior.jobs.contains_key(job_id));
                            assert(before.jobs.contains_key(job_id));
                            assert(job@ == prior.jobs[job_id]);
                            assert(job@ == before.jobs[job_id].released(so_far));
                            job.release_worker(id);
                            proof {
                                lemma_released_twice(before.jobs[job_id], so_far, set![id]);
                                assert(so_far.union(set![id]) =~= set![id]);
                            }
                            self.jobs.insert(job_id, job);
                            assert(self@.jobs =~= prior.jobs.insert(job_id, job@));
                        },
                        None => {
                            assert(self@.jobs =~= prior.jobs);
                        },
                    }
                    assert(self@.workers =~= prior.workers);
                    k += 1;
                }
                assert(worker@.job_ids.take(k as int) =~= worker@.job_ids);
                assert forall|j: JobId| before.jobs.contains_key(j) implies self@.jobs[j]
                    == before.jobs[j].released(before.touching(set![id], j)) by {
                    if worker@.job_ids.contains(j) {
                        assert(before.touching(set![id], j) =~= set![id]);
                    } else {
                        assert(before.touching(set![id], j) =~= Set::empty());
                    }
                }
                assert(self@.jobs =~= before.without_workers(set![id]).jobs);
            },
        }
    }

    /// Reaps the workers that are presumed dead at time `now`.
    pub fn reap_stale_workers(&mut self, now: u64)
        ensures
            final(self)@ == old(self)@.reaped(now),
    {
        let stale = self.stale_workers(now);
        let ghost before = self@;
        let mut i: usize = 0;
        assert(stale@.take(0).to_set() =~= Set::empty());
        assert(self@ == before.without_workers(Set::empty())) by {
            let same = before.without_workers(Set::empty());
            assert(same.workers =~= before.workers);
            assert forall|j: JobId| before.jobs.contains_key(j) implies same.jobs[j]
                == before.jobs[j] by {
                assert(before.touching(Set::empty(), j) =~= Set::empty());
            }
            assert(same.jobs =~= before.jobs);
        }
        while i < stale.len()
            invariant
                i <= stale.len(),
                self@ == before.without_workers(stale@.take(i as int).to_set()),
            decreases stale.len() - i,
        {
            proof {
                before.lemma_without_workers_step(stale@.take(i as int).to_set(), stale@[i as int]);
                assert(stale@.take(i + 1) =~= stale@.take(i as int).push(stale@[i as int]));
                stale@.take(i as int).lemma_push_to_set_commute(stale@[i as int]);
            }
            self.discard_worker(stale[i]);
            i += 1;
        }
        assert(stale@.take(i as int) =~= stale@);
    }
}

} // verus!
