//! One submitted job: its inputs, its phase, and its map and reduce tasks.

use crate::message::{texts, CoordinatorError, GetTaskReply, GetTaskReplyView, MapTaskAssignment};
use crate::task::{
    all_completed, all_failed, check_all_completed, fail_tasks, find_first_idle, find_task,
    first_idle, held_by_any, idle_tasks, new_tasks, position_of, put_task, release_tasks, released,
    retried, retry_task, views, JobId, MapTask, ReduceTask, TaskNumber, TaskRecord, TaskStatus,
    TaskView,
    WorkerId,
};
use vstd::prelude::*;

verus! {

/// The phase of a job. `Done` and `Failed` are final.
#[derive(Clone, Copy, Debug, PartialEq, Eq, Structural)]
pub enum JobStatus {
    /// Submitted; no task was asked for yet.
    Pending,
    /// Map tasks are handed out.
    Mapping,
    /// Every map task is completed; reduce tasks are handed out.
    Reducing,
    /// Every reduce task is completed.
    Done,
    /// Aborted after a failure that cannot be retried.
    Failed,
}

/// One submitted job.
pub struct Job {
    /// The input files; map task `i` reads `files[i]`.
    pub files: Vec<String>,
    pub n_reduce: usize,
    pub n_map: usize,
    pub app: String,
    pub output_dir: String,
    pub args: Vec<u8>,
    pub status: JobStatus,
    /// The scheduler passes over the job while this is set.
    pub is_full: bool,
    pub map_tasks: Vec<MapTask>,
    pub reduce_tasks: Vec<ReduceTask>,
    /// For each completed map task with a known worker, that worker; filled
    /// in when the map phase ends.
    pub map_task_assignments: Vec<MapTaskAssignment>,
    /// The error of the last task failure reported for the job.
    pub error_message: Option<String>,
}

/// A job as the contracts see it.
pub struct JobView {
    pub files: Seq<Seq<char>>,
    pub n_reduce: usize,
    pub n_map: usize,
    pub app: Seq<char>,
    pub output_dir: Seq<char>,
    pub args: Seq<u8>,
    pub status: JobStatus,
    pub is_full: bool,
    pub map_tasks: Seq<TaskView>,
    pub reduce_tasks: Seq<TaskView>,
    pub map_task_assignments: Seq<MapTaskAssignment>,
    pub error_message: Option<Seq<char>>,
}

impl View for Job {
    type V = JobView;

    open spec fn view(&self) -> JobView {
        JobView {
            files: texts(self.files@),
            n_reduce: self.n_reduce,
            n_map: self.n_map,
            app: self.app@,
            output_dir: self.output_dir@,
            args: self.args@,
            status: self.status,
            is_full: self.is_full,
            map_tasks: views(self.map_tasks@),
            reduce_tasks: views(self.reduce_tasks@),
            map_task_assignments: self.map_task_assignments@,
            error_message: match self.error_message {
                Some(message) => Some(message@),
                None => None,
            },
        }
    }
}

/// The workers of the tasks of `tasks` that name one, in task order.
pub open spec fn assignments_of(tasks: Seq<TaskView>) -> Seq<MapTaskAssignment>
    decreases tasks.len(),
{
    if tasks.len() == 0 {
        Seq::empty()
    } else if tasks.last().worker != 0 {
        assignments_of(tasks.drop_last()).push(
            MapTaskAssignment { task: tasks.last().number, worker_id: tasks.last().worker },
        )
    } else {
        assignments_of(tasks.drop_last())
    }
}

/// `list` without the entries that name a worker of `gone`.
pub open spec fn assignments_without(
    list: Seq<MapTaskAssignment>,
    gone: Set<WorkerId>,
) -> Seq<MapTaskAssignment>
    decreases list.len(),
{
    if list.len() == 0 {
        list
    } else if gone.contains(list.last().worker_id) {
        assignments_without(list.drop_last(), gone)
    } else {
        assignments_without(list.drop_last(), gone).push(list.last())
    }
}

/// `tasks` with the first record for task `number` marked completed.
pub open spec fn completed(tasks: Seq<TaskView>, number: TaskNumber) -> Seq<TaskView> {
    match position_of(tasks, number) {
        Some(i) => tasks.update(i, TaskView { status: TaskStatus::Completed, ..tasks[i] }),
        None => tasks,
    }
}

/// `tasks` with the record at position `i` assigned to `worker`.
pub open spec fn assigned(tasks: Seq<TaskView>, i: int, worker: WorkerId) -> Seq<TaskView> {
    tasks.update(i, TaskView { worker, status: TaskStatus::Assigned, ..tasks[i] })
}

impl JobView {
    /// The job as it is submitted: pending, with one idle map task per input
    /// file and `n_reduce` idle reduce tasks.
    pub open spec fn submitted(
        files: Seq<Seq<char>>,
        output_dir: Seq<char>,
        app: Seq<char>,
        n_reduce: usize,
        args: Seq<u8>,
    ) -> JobView {
        JobView {
            files,
            n_reduce,
            n_map: files.len() as usize,
            app,
            output_dir,
            args,
            status: JobStatus::Pending,
            is_full: false,
            map_tasks: idle_tasks(files.len()),
            reduce_tasks: idle_tasks(n_reduce as nat),
            map_task_assignments: Seq::empty(),
            error_message: None,
        }
    }

    /// The job has ended, well or not.
    pub open spec fn is_terminal(self) -> bool {
        self.status == JobStatus::Done || self.status == JobStatus::Failed
    }

    /// The records of the reduce tasks if `reduce`, of the map tasks if not.
    pub open spec fn tasks_of(self, reduce: bool) -> Seq<TaskView> {
        if reduce {
            self.reduce_tasks
        } else {
            self.map_tasks
        }
    }

    /// The first `n` records of `tasks` are those of tasks `0..n`, in order.
    /// Records added after them are for other task numbers.
    pub open spec fn starts_with_tasks(tasks: Seq<TaskView>, n: nat) -> bool {
        &&& n <= tasks.len()
        &&& forall|i: int| 0 <= i < n ==> (#[trigger] tasks[i]).number == i
    }

    /// What holds of every job the coordinator keeps: it has a map task for
    /// each input file and a reduce task for each partition; it is in its
    /// reduce phase only while every map task is completed; a failed job is
    /// passed over; and a job whose reduce tasks are all completed is done.
    pub open spec fn wf(self) -> bool {
        &&& self.n_map == self.files.len()
        &&& JobView::starts_with_tasks(self.map_tasks, self.files.len())
        &&& JobView::starts_with_tasks(self.reduce_tasks, self.n_reduce as nat)
        &&& self.status == JobStatus::Reducing ==> all_completed(self.map_tasks)
        &&& self.status == JobStatus::Failed ==> self.is_full
        &&& self.reduce_tasks.len() > 0 && all_completed(self.reduce_tasks) ==> self.status
            == JobStatus::Done
    }

    /// The job after the workers of `gone`, which had worked on it, were
    /// declared dead. A job that has ended stays as it is. Otherwise the tasks
    /// they held are idle again, what they had completed is forgotten, the
    /// scheduler considers the job again, and the job is back in the map phase
    /// if a map task was among them.
    pub open spec fn released(self, gone: Set<WorkerId>) -> JobView {
        if self.is_terminal() || gone =~= Set::empty() {
            self
        } else {
            JobView {
                status: if held_by_any(self.map_tasks, gone) {
                    JobStatus::Mapping
                } else {
                    self.status
                },
                is_full: false,
                map_tasks: released(self.map_tasks, gone),
                reduce_tasks: released(self.reduce_tasks, gone),
                map_task_assignments: assignments_without(self.map_task_assignments, gone),
                ..self
            }
        }
    }

    /// The input file of map task `number`; empty if the job has no such file.
    pub open spec fn input_file(self, number: TaskNumber) -> Seq<char> {
        if number < self.files.len() {
            self.files[number as int]
        } else {
            Seq::empty()
        }
    }

    /// An answer that describes the job and hands out nothing.
    pub open spec fn describe(self, job_id: JobId) -> GetTaskReplyView {
        GetTaskReplyView {
            job_id,
            output_dir: self.output_dir,
            app: self.app,
            task: 0,
            file: Seq::empty(),
            n_reduce: self.n_reduce,
            n_map: self.files.len() as usize,
            reduce: false,
            wait: true,
            map_task_assignments: self.map_task_assignments,
            args: self.args,
        }
    }

    /// The answer to a worker for which the scheduler picked this job: the
    /// idle task of the current phase with the least number, with what the
    /// worker needs to run it, or "nothing to do now" if the phase has no
    /// idle task.
    pub open spec fn offer(self, job_id: JobId) -> GetTaskReplyView {
        match self.status {
            JobStatus::Pending | JobStatus::Mapping => match first_idle(self.map_tasks) {
                Some(i) => GetTaskReplyView {
                    task: self.map_tasks[i].number,
                    file: self.input_file(self.map_tasks[i].number),
                    reduce: false,
                    wait: false,
                    ..self.describe(job_id)
                },
                None => GetTaskReplyView::idle(),
            },
            JobStatus::Reducing => match first_idle(self.reduce_tasks) {
                Some(i) => GetTaskReplyView {
                    task: self.reduce_tasks[i].number,
                    reduce: true,
                    wait: false,
                    ..self.describe(job_id)
                },
                None => GetTaskReplyView::idle(),
            },
            JobStatus::Done | JobStatus::Failed => self.describe(job_id),
        }
    }

    /// The job after `offer` was answered to `worker`: a pending job is in
    /// the map phase, the task handed out is assigned to `worker`, and the
    /// scheduler passes over the job from now on if that task has the highest
    /// number of its phase.
    pub open spec fn dispatched(self, worker: WorkerId) -> JobView {
        match self.status {
            JobStatus::Pending | JobStatus::Mapping => match first_idle(self.map_tasks) {
                Some(i) => JobView {
                    status: JobStatus::Mapping,
                    is_full: self.is_full || self.map_tasks[i].number + 1 == self.files.len(),
                    map_tasks: assigned(self.map_tasks, i, worker),
                    ..self
                },
                None => JobView { status: JobStatus::Mapping, ..self },
            },
            JobStatus::Reducing => match first_idle(self.reduce_tasks) {
                Some(i) => JobView {
                    is_full: self.is_full || self.reduce_tasks[i].number + 1 == self.n_reduce,
                    reduce_tasks: assigned(self.reduce_tasks, i, worker),
                    ..self
                },
                None => self,
            },
            JobStatus::Done | JobStatus::Failed => self,
        }
    }

    /// The job has a record for task `number` of the given kind.
    pub open spec fn has_task(self, number: TaskNumber, reduce: bool) -> bool {
        position_of(self.tasks_of(reduce), number) is Some
    }

    /// The job after task `number` was reported finished. A job that has
    /// ended, or has no such task, stays as it is. Otherwise the task is completed; when that
    /// completes the map tasks the job enters the reduce phase, the scheduler
    /// considers it again and the workers of the map tasks are listed; when it
    /// completes the reduce tasks the job is done.
    pub open spec fn finished(self, number: TaskNumber, reduce: bool) -> JobView {
        if self.is_terminal() || !self.has_task(number, reduce) {
            self
        } else if reduce {
            let tasks = completed(self.reduce_tasks, number);
            JobView {
                status: if all_completed(tasks) {
                    JobStatus::Done
                } else {
                    self.status
                },
                reduce_tasks: tasks,
                ..self
            }
        } else {
            let tasks = completed(self.map_tasks, number);
            if all_completed(tasks) {
                JobView {
                    status: JobStatus::Reducing,
                    is_full: false,
                    map_tasks: tasks,
                    map_task_assignments: assignments_of(tasks),
                    ..self
                }
            } else {
                JobView { map_tasks: tasks, ..self }
            }
        }
    }

    /// A failure of a reduce task is out of order while a map task is not completed.
    pub open spec fn rejects_failure(self, reduce: bool) -> bool {
        reduce && !all_completed(self.map_tasks)
    }

    /// What the worker that reports a failure is told.
    pub open spec fn failure_outcome(self, reduce: bool, retry: bool) -> Result<
        (),
        CoordinatorError,
    > {
        if self.rejects_failure(reduce) {
            Err(CoordinatorError::MapPhaseIncomplete)
        } else if !retry {
            Err(CoordinatorError::JobAborted)
        } else {
            Ok(())
        }
    }

    /// The job after task `number` was reported failed with `error`. A job
    /// that has ended stays as it is. Otherwise the error is recorded; then,
    /// unless the report is out of order: if the task may not be retried, the
    /// job and all its tasks are failed; if it may, the task is idle again and
    /// the scheduler considers the job again, and a job that gets a map task
    /// back in its reduce phase returns to its map phase.
    pub open spec fn failed(
        self,
        number: TaskNumber,
        reduce: bool,
        retry: bool,
        error: Seq<char>,
    ) -> JobView {
        let noted = JobView { error_message: Some(error), ..self };
        if self.is_terminal() {
            self
        } else if self.rejects_failure(reduce) {
            noted
        } else if !retry {
            JobView {
                status: JobStatus::Failed,
                is_full: true,
                map_tasks: all_failed(self.map_tasks),
                reduce_tasks: all_failed(self.reduce_tasks),
                ..noted
            }
        } else if reduce {
            JobView { is_full: false, reduce_tasks: retried(self.reduce_tasks, number), ..noted }
        } else {
            JobView {
                status: if self.status == JobStatus::Reducing {
                    JobStatus::Mapping
                } else {
                    self.status
                },
                is_full: false,
                map_tasks: retried(self.map_tasks, number),
                ..noted
            }
        }
    }
}

/// Drops from `list` the entries that name `worker`.
pub fn drop_assignments(list: &mut Vec<MapTaskAssignment>, worker: WorkerId)
    ensures
        final(list)@ == assignments_without(old(list)@, set![worker]),
{
    let mut kept: Vec<MapTaskAssignment> = Vec::new();
    let mut i: usize = 0;
    while i < list.len()
        invariant
            i <= list.len(),
            list@ == old(list)@,
            kept@ == assignments_without(list@.take(i as int), set![worker]),
        decreases list.len() - i,
    {
        proof {
            assert(list@.take(i + 1).drop_last() =~= list@.take(i as int));
        }
        if list[i].worker_id != worker {
            kept.push(list[i]);
        }
        i += 1;
    }
    assert(list@.take(i as int) =~= list@);
    *list = kept;
}

/// Lists the workers of the tasks that name one.
pub fn list_assignments(tasks: &Vec<MapTask>) -> (list: Vec<MapTaskAssignment>)
    ensures
        list@ == assignments_of(views(tasks@)),
{
    let mut list: Vec<MapTaskAssignment> = Vec::new();
    let mut i: usize = 0;
    while i < tasks.len()
        invariant
            i <= tasks.len(),
            list@ == assignments_of(views(tasks@).take(i as int)),
        decreases tasks.len() - i,
    {
        proof {
            assert(views(tasks@).take(i + 1).drop_last() =~= views(tasks@).take(i as int));
        }
        let worker_id = tasks[i].worker_id;
        if worker_id != 0 {
            list.push(MapTaskAssignment { task: tasks[i].map_task_number, worker_id });
        }
        i += 1;
    }
    assert(views(tasks@).take(i as int) =~= views(tasks@));
    list
}

impl Job {
    /// A job as it is submitted.
    pub fn new(
        files: Vec<String>,
        output_dir: String,
        app: String,
        n_reduce: usize,
        args: Vec<u8>,
    ) -> (job: Job)
        ensures
            job@ == JobView::submitted(texts(files@), output_dir@, app@, n_reduce, args@),
    {
        let n_map = files.len();
        Job {
            files,
            n_reduce,
            n_map,
            app,
            output_dir,
            args,
            status: JobStatus::Pending,
            is_full: false,
            map_tasks: new_tasks(n_map),
            reduce_tasks: new_tasks(n_reduce),
            map_task_assignments: Vec::new(),
            error_message: None,
        }
    }

    /// Tells whether the job has ended.
    pub fn is_terminal(&self) -> (ended: bool)
        ensures
            ended == self@.is_terminal(),
    {
        match self.status {
            JobStatus::Done | JobStatus::Failed => true,
            _ => false,
        }
    }

    /// Tells whether the job has a record for task `number` of the given kind.
    pub fn has_task(&self, number: TaskNumber, reduce: bool) -> (found: bool)
        ensures
            found == self@.has_task(number, reduce),
    {
        if reduce {
            find_task(&self.reduce_tasks, number).is_some()
        } else {
            find_task(&self.map_tasks, number).is_some()
        }
    }

    /// Takes the job away from `worker`, which was declared dead.
    pub fn release_worker(&mut self, worker: WorkerId)
        ensures
            final(self)@ == old(self)@.released(set![worker]),
    {
        assert(!(set![worker] =~= Set::<WorkerId>::empty())) by {
            assert(set![worker].contains(worker));
        }
        if self.is_terminal() {
            return ;
        }
        if release_tasks(&mut self.map_tasks, worker) {
            self.status = JobStatus::Mapping;
        }
        release_tasks(&mut self.reduce_tasks, worker);
        drop_assignments(&mut self.map_task_assignments, worker);
        self.is_full = false;
    }

    /// The description of the job that every answer about it carries.
    fn describe(&self, job_id: JobId) -> (reply: GetTaskReply)
        ensures
            reply@ == self@.describe(job_id),
    {
        GetTaskReply {
            job_id,
            output_dir: self.output_dir.clone(),
            app: self.app.clone(),
            task: 0,
            file: String::new(),
            n_reduce: self.n_reduce,
            n_map: self.files.len(),
            reduce: false,
            wait: true,
            map_task_assignments: self.map_task_assignments.clone(),
            args: self.args.clone(),
        }
    }

    /// The input file of map task `number`; empty if the job has no such file.
    fn input_file(&self, number: TaskNumber) -> (file: String)
        ensures
            file@ == self@.input_file(number),
    {
        if number < self.files.len() {
            self.files[number].clone()
        } else {
            String::new()
        }
    }

    /// Hands the idle task of the current phase with the least number to
    /// `worker_id`, if the phase has an idle task, and answers the worker.
    pub fn dispatch(&mut self, job_id: JobId, worker_id: WorkerId) -> (reply: GetTaskReply)
        ensures
            reply@ == old(self)@.offer(job_id),
            final(self)@ == old(self)@.dispatched(worker_id),
    {
        match self.status {
            JobStatus::Pending | JobStatus::Mapping => {
                self.status = JobStatus::Mapping;
                match find_first_idle(&self.map_tasks) {
                    Some(i) => {
                        let task = self.map_tasks[i].to_view();
                        let mut reply = self.describe(job_id);
                        reply.task = task.number;
                        reply.file = self.input_file(task.number);
                        reply.wait = false;
                        put_task(
                            &mut self.map_tasks,
                            i,
                            TaskView {
                                number: task.number,
                                worker: worker_id,
                                status: TaskStatus::Assigned,
                            },
                        );
                        if self.files.len() > 0 && task.number == self.files.len() - 1 {
                            self.is_full = true;
                        }
                        reply
                    },
                    None => GetTaskReply::idle(),
                }
            },
            JobStatus::Reducing => {
                match find_first_idle(&self.reduce_tasks) {
                    Some(i) => {
                        let task = self.reduce_tasks[i].to_view();
                        let mut reply = self.describe(job_id);
                        reply.task = task.number;
                        reply.reduce = true;
                        reply.wait = false;
                        put_task(
                            &mut self.reduce_tasks,
                            i,
                            TaskView {
                                number: task.number,
                                worker: worker_id,
                                status: TaskStatus::Assigned,
                            },
                        );
                        if self.n_reduce > 0 && task.number == self.n_reduce - 1 {
                            self.is_full = true;
                        }
                        reply
                    },
                    None => GetTaskReply::idle(),
                }
            },
            JobStatus::Done | JobStatus::Failed => self.describe(job_id),
        }
    }

    /// Records that task `number` was reported finished.
    pub fn finish(&mut self, number: TaskNumber, reduce: bool)
        ensures
            final(self)@ == old(self)@.finished(number, reduce),
    {
        if self.is_terminal() {
            return ;
        }
        if reduce {
            if let Some(i) = find_task(&self.reduce_tasks, number) {
                let task = self.reduce_tasks[i].to_view();
                put_task(
                    &mut self.reduce_tasks,
                    i,
                    TaskView {
                        number: task.number,
                        worker: task.worker,
                        status: TaskStatus::Completed,
                    },
                );
                if check_all_completed(&self.reduce_tasks) {
                    self.status = JobStatus::Done;
                }
            }
        } else {
            if let Some(i) = find_task(&self.map_tasks, number) {
                let task = self.map_tasks[i].to_view();
                put_task(
                    &mut self.map_tasks,
                    i,
                    TaskView {
                        number: task.number,
                        worker: task.worker,
                        status: TaskStatus::Completed,
                    },
                );
                if check_all_completed(&self.map_tasks) {
                    self.status = JobStatus::Reducing;
                    self.is_full = false;
                    self.map_task_assignments = list_assignments(&self.map_tasks);
                }
            }
        }
    }

    /// Records that task `number` was reported failed with `error`, and
    /// tells what to answer.
    pub fn fail(&mut self, number: TaskNumber, reduce: bool, retry: bool, error: String) -> (outcome:
        Result<(), CoordinatorError>)
        ensures
            outcome == old(self)@.failure_outcome(reduce, retry),
            final(self)@ == old(self)@.failed(number, reduce, retry, error@),
    {
        let ended = self.is_terminal();
        if !ended {
            self.error_message = Some(error);
        }
        if reduce && !check_all_completed(&self.map_tasks) {
            return Err(CoordinatorError::MapPhaseIncomplete);
        }
        if !retry {
            if !ended {
                self.status = JobStatus::Failed;
                self.is_full = true;
                fail_tasks(&mut self.map_tasks);
                fail_tasks(&mut self.reduce_tasks);
            }
            return Err(CoordinatorError::JobAborted);
        }
        if !ended {
            if reduce {
                retry_task(&mut self.reduce_tasks, number);
            } else {
                retry_task(&mut self.map_tasks, number);
                if self.status == JobStatus::Reducing {
                    self.status = JobStatus::Mapping;
                }
            }
            self.is_full = false;
        }
        Ok(())
    }
}

} // verus!
