//! Task records of a job, and the operations the scheduler performs on a
//! job's list of map tasks or reduce tasks.

use vstd::prelude::*;

verus! {

/// Index of a task within its kind and job.
pub type TaskNumber = usize;

/// Identifier of a submitted job; `0` stands for "no job".
pub type JobId = u32;

/// Identifier of a registered worker; `0` stands for "no worker".
pub type WorkerId = u32;

/// Progress of one task.
#[derive(Clone, Copy, Debug, PartialEq, Eq, Structural)]
pub enum TaskStatus {
    /// Not handed out, or handed back after a timeout or a retryable failure.
    Idle,
    /// Handed to a worker that has not reported yet.
    Assigned,
    /// Reported finished.
    Completed,
    /// Abandoned because the job was aborted.
    Failed,
}

/// What a task record says, whichever kind of task it belongs to.
#[derive(Clone, Copy, Debug, PartialEq, Eq, Structural)]
pub struct TaskView {
    pub number: TaskNumber,
    /// The worker holding the task, or the last one that held it; `0` if none.
    pub worker: WorkerId,
    pub status: TaskStatus,
}

/// One map task of a job.
#[derive(Clone, Copy, Debug, PartialEq, Eq, Structural)]
pub struct MapTask {
    pub map_task_number: TaskNumber,
    pub worker_id: WorkerId,
    pub map_task_status: TaskStatus,
}

/// One reduce task of a job.
#[derive(Clone, Copy, Debug, PartialEq, Eq, Structural)]
pub struct ReduceTask {
    pub reduce_task_number: TaskNumber,
    pub worker_id: WorkerId,
    pub reduce_task_status: TaskStatus,
}

impl View for MapTask {
    type V = TaskView;

    open spec fn view(&self) -> TaskView {
        TaskView {
            number: self.map_task_number,
            worker: self.worker_id,
            status: self.map_task_status,
        }
    }
}

impl View for ReduceTask {
    type V = TaskView;

    open spec fn view(&self) -> TaskView {
        TaskView {
            number: self.reduce_task_number,
            worker: self.worker_id,
            status: self.reduce_task_status,
        }
    }
}

/// A task record of either kind, read and written through its view.
pub trait TaskRecord: View<V = TaskView> + Sized {
    /// The record that says `v`.
    fn from_view(v: TaskView) -> (t: Self)
        ensures
            t@ == v,
    ;

    /// What the record says.
    fn to_view(&self) -> (v: TaskView)
        ensures
            v == self@,
    ;
}

impl TaskRecord for MapTask {
    fn from_view(v: TaskView) -> (t: Self) {
        MapTask { map_task_number: v.number, worker_id: v.worker, map_task_status: v.status }
    }

    fn to_view(&self) -> (v: TaskView) {
        TaskView {
            number: self.map_task_number,
            worker: self.worker_id,
            status: self.map_task_status,
        }
    }
}

impl TaskRecord for ReduceTask {
    fn from_view(v: TaskView) -> (t: Self) {
        ReduceTask {
            reduce_task_number: v.number,
            worker_id: v.worker,
            reduce_task_status: v.status,
        }
    }

    fn to_view(&self) -> (v: TaskView) {
        TaskView {
            number: self.reduce_task_number,
            worker: self.worker_id,
            status: self.reduce_task_status,
        }
    }
}

/// The views of a list of task records, in order.
pub open spec fn views<T: View<V = TaskView>>(tasks: Seq<T>) -> Seq<TaskView> {
    Seq::new(tasks.len(), |i: int| tasks[i]@)
}

/// A fresh record for task `number`: idle and held by nobody.
pub open spec fn idle_task(number: TaskNumber) -> TaskView {
    TaskView { number, worker: 0, status: TaskStatus::Idle }
}

/// The records of tasks `0..n`, all idle.
pub open spec fn idle_tasks(n: nat) -> Seq<TaskView> {
    Seq::new(n, |i: int| idle_task(i as TaskNumber))
}

/// Record `i` of `tasks` is handed out no later than record `k`: tasks go
/// out by number, and records of one number by position.
pub open spec fn goes_before(tasks: Seq<TaskView>, i: int, k: int) -> bool {
    tasks[i].number < tasks[k].number || (tasks[i].number == tasks[k].number && i <= k)
}

/// `i` is the position of the idle record of `tasks` that is handed out
/// first: the one with the least task number.
pub open spec fn is_first_idle(tasks: Seq<TaskView>, i: int) -> bool {
    &&& 0 <= i < tasks.len()
    &&& tasks[i].status == TaskStatus::Idle
    &&& forall|k: int|
        0 <= k < tasks.len() && (#[trigger] tasks[k]).status == TaskStatus::Idle ==> goes_before(
            tasks,
            i,
            k,
        )
}

/// The position of the idle record of `tasks` with the least task number,
/// if any record is idle.
pub open spec fn first_idle(tasks: Seq<TaskView>) -> Option<int> {
    if exists|i: int| is_first_idle(tasks, i) {
        Some(choose|i: int| is_first_idle(tasks, i))
    } else {
        None
    }
}

/// `i` is the position of the first record of `tasks` for task `number`.
pub open spec fn is_position_of(tasks: Seq<TaskView>, number: TaskNumber, i: int) -> bool {
    &&& 0 <= i < tasks.len()
    &&& tasks[i].number == number
    &&& forall|k: int| 0 <= k < i ==> (#[trigger] tasks[k]).number != number
}

/// The position of the first record of `tasks` for task `number`, if there is one.
pub open spec fn position_of(tasks: Seq<TaskView>, number: TaskNumber) -> Option<int> {
    if exists|i: int| is_position_of(tasks, number, i) {
        Some(choose|i: int| is_position_of(tasks, number, i))
    } else {
        None
    }
}

/// Every record of `tasks` is completed.
pub open spec fn all_completed(tasks: Seq<TaskView>) -> bool {
    forall|i: int| 0 <= i < tasks.len() ==> (#[trigger] tasks[i]).status == TaskStatus::Completed
}

/// Some record of `tasks` names a worker of `gone` as its holder.
pub open spec fn held_by_any(tasks: Seq<TaskView>, gone: Set<WorkerId>) -> bool {
    exists|i: int| 0 <= i < tasks.len() && gone.contains((#[trigger] tasks[i]).worker)
}

/// `t` after the workers of `gone` have lost it: idle again if one of them held it.
pub open spec fn released_task(t: TaskView, gone: Set<WorkerId>) -> TaskView {
    if gone.contains(t.worker) {
        idle_task(t.number)
    } else {
        t
    }
}

/// `tasks` after every task held by a worker of `gone` went back to idle.
pub open spec fn released(tasks: Seq<TaskView>, gone: Set<WorkerId>) -> Seq<TaskView> {
    Seq::new(tasks.len(), |i: int| released_task(tasks[i], gone))
}

/// `tasks` with every record marked failed; numbers and holders stay.
pub open spec fn all_failed(tasks: Seq<TaskView>) -> Seq<TaskView> {
    Seq::new(tasks.len(), |i: int| TaskView { status: TaskStatus::Failed, ..tasks[i] })
}

/// `tasks` with task `number` idle again: its first record is reset, or a
/// record is appended if it has none.
pub open spec fn retried(tasks: Seq<TaskView>, number: TaskNumber) -> Seq<TaskView> {
    match position_of(tasks, number) {
        Some(i) => tasks.update(i, idle_task(number)),
        None => tasks.push(idle_task(number)),
    }
}

/// The first idle record is determined by `is_first_idle`.
pub proof fn lemma_first_idle_is(tasks: Seq<TaskView>, i: int)
    requires
        is_first_idle(tasks, i),
    ensures
        first_idle(tasks) == Some(i),
{
    let j = choose|j: int| is_first_idle(tasks, j);
    assert(is_first_idle(tasks, j));
    assert(goes_before(tasks, i, j)) by {
        assert(tasks[j].status == TaskStatus::Idle);
    }
    assert(goes_before(tasks, j, i)) by {
        assert(tasks[i].status == TaskStatus::Idle);
    }
}

/// The position that `first_idle` gives is that of an idle record.
pub proof fn lemma_first_idle_found(tasks: Seq<TaskView>)
    ensures
        first_idle(tasks) matches Some(i) ==> is_first_idle(tasks, i),
{
    if exists|i: int| is_first_idle(tasks, i) {
        let i = choose|i: int| is_first_idle(tasks, i);
        assert(is_first_idle(tasks, i));
    }
}

/// The position that `position_of` gives is that of a record for the task.
pub proof fn lemma_position_found(tasks: Seq<TaskView>, number: TaskNumber)
    ensures
        position_of(tasks, number) matches Some(i) ==> is_position_of(tasks, number, i),
{
    if exists|i: int| is_position_of(tasks, number, i) {
        let i = choose|i: int| is_position_of(tasks, number, i);
        assert(is_position_of(tasks, number, i));
    }
}

/// The first record for a task number is determined by `is_position_of`.
pub proof fn lemma_position_of_is(tasks: Seq<TaskView>, number: TaskNumber, i: int)
    requires
        is_position_of(tasks, number, i),
    ensures
        position_of(tasks, number) == Some(i),
{
    let j = choose|j: int| is_position_of(tasks, number, j);
    assert(is_position_of(tasks, number, j));
    if j < i {
        assert(tasks[j].number != number);
    }
    if i < j {
        assert(tasks[i].number != number);
    }
}

/// Where some record is for task `number`, a first such record exists.
pub proof fn lemma_some_position(tasks: Seq<TaskView>, number: TaskNumber, k: int)
    requires
        0 <= k < tasks.len(),
        tasks[k].number == number,
    ensures
        position_of(tasks, number) is Some,
    decreases k,
{
    if exists|m: int| 0 <= m < k && (#[trigger] tasks[m]).number == number {
        let m = choose|m: int| 0 <= m < k && (#[trigger] tasks[m]).number == number;
        lemma_some_position(tasks, number, m);
    } else {
        assert(is_position_of(tasks, number, k));
    }
}

/// Finds the idle record with the least task number.
pub fn find_first_idle<T: TaskRecord>(tasks: &Vec<T>) -> (found: Option<usize>)
    ensures
        match found {
            Some(i) => first_idle(views(tasks@)) == Some(i as int),
            None => first_idle(views(tasks@)) is None,
        },
{
    let ghost all = views(tasks@);
    let mut found: Option<usize> = None;
    let mut least: TaskNumber = 0;
    let mut i: usize = 0;
    while i < tasks.len()
        invariant
            i <= tasks.len(),
            all == views(tasks@),
            found is None ==> forall|k: int|
                0 <= k < i ==> (#[trigger] all[k]).status != TaskStatus::Idle,
            found matches Some(at) ==> {
                &&& at < i
                &&& all[at as int].status == TaskStatus::Idle
                &&& all[at as int].number == least
                &&& forall|k: int|
                    0 <= k < i && (#[trigger] all[k]).status == TaskStatus::Idle ==> goes_before(
                        all,
                        at as int,
                        k,
                    )
            },
        decreases tasks.len() - i,
    {
        let task = tasks[i].to_view();
        assert(task == all[i as int]);
        if task.status == TaskStatus::Idle && (found.is_none() || task.number < least) {
            found = Some(i);
            least = task.number;
        }
        i += 1;
    }
    proof {
        match found {
            Some(at) => {
                lemma_first_idle_is(all, at as int);
            },
            None => {
                assert forall|k: int| !is_first_idle(all, k) by {
                    if 0 <= k < all.len() {
                        assert(all[k].status != TaskStatus::Idle);
                    }
                }
            },
        }
    }
    found
}

/// Finds the first record for task `number`.
pub fn find_task<T: TaskRecord>(tasks: &Vec<T>, number: TaskNumber) -> (found: Option<usize>)
    ensures
        match found {
            Some(i) => position_of(views(tasks@), number) == Some(i as int),
            None => position_of(views(tasks@), number) is None,
        },
{
    let mut i: usize = 0;
    while i < tasks.len()
        invariant
            i <= tasks.len(),
            forall|k: int| 0 <= k < i ==> (#[trigger] views(tasks@)[k]).number != number,
        decreases tasks.len() - i,
    {
        if tasks[i].to_view().number == number {
            proof {
                lemma_position_of_is(views(tasks@), number, i as int);
            }
            return Some(i);
        }
        i += 1;
    }
    assert forall|k: int| !is_position_of(views(tasks@), number, k) by {
        if 0 <= k < tasks.len() {
            assert(views(tasks@)[k].number != number);
        }
    }
    None
}

/// Tells whether every record is completed.
pub fn check_all_completed<T: TaskRecord>(tasks: &Vec<T>) -> (done: bool)
    ensures
        done == all_completed(views(tasks@)),
{
    let mut i: usize = 0;
    while i < tasks.len()
        invariant
            i <= tasks.len(),
            forall|k: int|
                0 <= k < i ==> (#[trigger] views(tasks@)[k]).status == TaskStatus::Completed,
        decreases tasks.len() - i,
    {
        if tasks[i].to_view().status != TaskStatus::Completed {
            assert(views(tasks@)[i as int].status != TaskStatus::Completed);
            return false;
        }
        i += 1;
    }
    true
}

/// Overwrites the record at position `i`.
pub fn put_task<T: TaskRecord>(tasks: &mut Vec<T>, i: usize, v: TaskView)
    requires
        i < old(tasks).len(),
    ensures
        final(tasks).len() == old(tasks).len(),
        views(final(tasks)@) == views(old(tasks)@).update(i as int, v),
{
    tasks.set(i, T::from_view(v));
    assert(views(tasks@) =~= views(old(tasks)@).update(i as int, v));
}

/// The idle records of tasks `0..n`.
pub fn new_tasks<T: TaskRecord>(n: usize) -> (tasks: Vec<T>)
    ensures
        views(tasks@) == idle_tasks(n as nat),
{
    let mut tasks: Vec<T> = Vec::new();
    let mut i: usize = 0;
    while i < n
        invariant
            i <= n,
            tasks.len() == i,
            views(tasks@) == idle_tasks(i as nat),
        decreases n - i,
    {
        let ghost prior = tasks@;
        tasks.push(T::from_view(TaskView { number: i, worker: 0, status: TaskStatus::Idle }));
        i += 1;
        assert forall|k: int| 0 <= k < i implies views(tasks@)[k] == idle_tasks(i as nat)[k] by {
            if k < i - 1 {
                assert(views(prior)[k] == idle_tasks((i - 1) as nat)[k]);
            }
        }
        assert(views(tasks@) =~= idle_tasks(i as nat));
    }
    tasks
}

/// Hands every task held by `worker` back: idle, with no holder. Tells
/// whether `worker` held any.
pub fn release_tasks<T: TaskRecord>(tasks: &mut Vec<T>, worker: WorkerId) -> (any: bool)
    ensures
        views(final(tasks)@) == released(views(old(tasks)@), set![worker]),
        any == held_by_any(views(old(tasks)@), set![worker]),
{
    let ghost before = views(tasks@);
    let mut any = false;
    let mut i: usize = 0;
    while i < tasks.len()
        invariant
            i <= tasks.len(),
            tasks.len() == before.len(),
            forall|k: int|
                0 <= k < i ==> (#[trigger] views(tasks@)[k]) == released_task(
                    before[k],
                    set![worker],
                ),
            forall|k: int| i <= k < tasks.len() ==> (#[trigger] views(tasks@)[k]) == before[k],
            any == exists|k: int| 0 <= k < i && set![worker].contains((#[trigger] before[k]).worker),
        decreases tasks.len() - i,
    {
        let t = tasks[i].to_view();
        assert(t == before[i as int]) by {
            assert(views(tasks@)[i as int] == before[i as int]);
        }
        if t.worker == worker {
            put_task(tasks, i, TaskView { number: t.number, worker: 0, status: TaskStatus::Idle });
            any = true;
            assert(set![worker].contains(before[i as int].worker));
        }
        i += 1;
    }
    assert(views(tasks@) =~= released(before, set![worker]));
    any
}

/// Marks every record failed.
pub fn fail_tasks<T: TaskRecord>(tasks: &mut Vec<T>)
    ensures
        views(final(tasks)@) == all_failed(views(old(tasks)@)),
{
    let ghost before = views(tasks@);
    let mut i: usize = 0;
    while i < tasks.len()
        invariant
            i <= tasks.len(),
            tasks.len() == before.len(),
            forall|k: int|
                0 <= k < i ==> (#[trigger] views(tasks@)[k]) == (TaskView {
                    status: TaskStatus::Failed,
                    ..before[k]
                }),
            forall|k: int| i <= k < tasks.len() ==> (#[trigger] views(tasks@)[k]) == before[k],
        decreases tasks.len() - i,
    {
        let t = tasks[i].to_view();
        assert(t == before[i as int]) by {
            assert(views(tasks@)[i as int] == before[i as int]);
        }
        put_task(tasks, i, TaskView { number: t.number, worker: t.worker, status: TaskStatus::Failed });
        i += 1;
    }
    assert(views(tasks@) =~= all_failed(before));
}

/// Makes task `number` idle again, adding a record for it if it has none.
pub fn retry_task<T: TaskRecord>(tasks: &mut Vec<T>, number: TaskNumber)
    ensures
        views(final(tasks)@) == retried(views(old(tasks)@), number),
{
    let fresh = TaskView { number, worker: 0, status: TaskStatus::Idle };
    match find_task(tasks, number) {
        Some(i) => {
            proof {
                assert(is_position_of(views(tasks@), number, i as int)) by {
                    let j = choose|j: int| is_position_of(views(tasks@), number, j);
                }
            }
            put_task(tasks, i, fresh);
        },
        None => {
            tasks.push(T::from_view(fresh));
            assert(views(tasks@) =~= views(old(tasks)@).push(fresh));
        },
    }
}

} // verus!
