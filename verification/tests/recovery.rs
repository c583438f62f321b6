use map_reduce::coordinator::CoordinatorData;
use map_reduce::job::JobStatus;
use map_reduce::message::{CoordinatorError, MapTaskAssignment};
use map_reduce::task::TaskStatus;
use map_reduce::worker::{WorkerStatus, TASK_TIMEOUT_SECS};

fn apps() -> Vec<String> {
    vec!["wc".to_string()]
}

fn files(n: usize) -> Vec<String> {
    (0..n).map(|i| format!("f{}", i)).collect()
}

fn submit(data: &mut CoordinatorData, n_files: usize, n_reduce: u32) -> u32 {
    data.submit_job(&apps(), files(n_files), "out".to_string(), "wc".to_string(), n_reduce, Vec::new())
        .unwrap()
}

#[test]
fn timeout_is_seven_units() {
    assert_eq!(TASK_TIMEOUT_SECS, 7);
}

#[test]
fn silent_worker_is_reaped_and_its_task_reassigned() {
    let mut data = CoordinatorData::new();
    let w1 = data.register(0);
    let job = submit(&mut data, 1, 1);
    let first = data.get_task(w1, 0).unwrap();
    assert_eq!((first.task, first.reduce, first.wait), (0, false, false));
    let w2 = data.register(8);
    let second = data.get_task(w2, 8).unwrap();
    assert_eq!((second.job_id, second.task, second.reduce, second.wait), (job, first.task, false, false));
    assert!(!data.workers.contains_key(&w1));
    assert!(data.workers.contains_key(&w2));
    assert_eq!(data.jobs[&job].map_tasks[0].worker_id, w2);
    assert_eq!(data.jobs[&job].map_tasks[0].map_task_status, TaskStatus::Assigned);
}

#[test]
fn worker_is_kept_at_exactly_the_timeout() {
    let mut data = CoordinatorData::new();
    let w1 = data.register(10);
    let w2 = data.register(17);
    let job = submit(&mut data, 2, 1);
    data.get_task(w1, 10).unwrap();
    let reply = data.get_task(w2, 17).unwrap();
    assert_eq!(reply.task, 1);
    assert!(data.workers.contains_key(&w1));
    assert_eq!(data.jobs[&job].map_tasks[0].worker_id, w1);
    let later = data.get_task(w2, 18).unwrap();
    assert!(!data.workers.contains_key(&w1));
    assert_eq!(later.task, 0);
}

#[test]
fn heartbeat_keeps_a_worker_alive() {
    let mut data = CoordinatorData::new();
    let w1 = data.register(0);
    let w2 = data.register(0);
    submit(&mut data, 2, 1);
    data.get_task(w1, 0).unwrap();
    data.heartbeat(w1, 7).unwrap();
    data.heartbeat(w2, 7).unwrap();
    let reply = data.get_task(w2, 14).unwrap();
    assert_eq!(reply.task, 1);
    assert!(data.workers.contains_key(&w1));
}

#[test]
fn clock_behind_the_heartbeat_reaps_nobody() {
    let mut data = CoordinatorData::new();
    let w1 = data.register(100);
    let w2 = data.register(100);
    submit(&mut data, 1, 1);
    data.get_task(w1, 100).unwrap();
    assert!(data.get_task(w2, 3).unwrap().wait);
    assert!(data.workers.contains_key(&w1));
    assert!(data.workers.contains_key(&w2));
}

#[test]
fn stale_caller_is_reaped_and_must_register_again() {
    let mut data = CoordinatorData::new();
    let w1 = data.register(0);
    let job = submit(&mut data, 1, 1);
    data.get_task(w1, 0).unwrap();
    assert_eq!(data.get_task(w1, 20).err(), Some(CoordinatorError::WorkerNotFound));
    assert!(data.workers.is_empty());
    assert_eq!(data.heartbeat(w1, 20), Err(CoordinatorError::WorkerNotFound));
    assert_eq!(data.jobs[&job].map_tasks[0].map_task_status, TaskStatus::Idle);
    assert_eq!(data.jobs[&job].map_tasks[0].worker_id, 0);
    let w2 = data.register(20);
    assert_eq!(w2, 2);
    assert_eq!(data.get_task(w2, 20).unwrap().task, 0);
}

#[test]
fn reaping_releases_every_task_of_the_dead_worker() {
    let mut data = CoordinatorData::new();
    let w1 = data.register(0);
    let w2 = data.register(0);
    let job = submit(&mut data, 3, 1);
    assert_eq!(data.get_task(w1, 0).unwrap().task, 0);
    data.finish_task(w1, job, 0, false).unwrap();
    assert_eq!(data.get_task(w1, 0).unwrap().task, 1);
    assert_eq!(data.get_task(w2, 0).unwrap().task, 2);
    assert!(data.jobs[&job].is_full);
    data.heartbeat(w2, 9).unwrap();
    // w1 is dead at time 9: its completed task 0 and its running task 1 are lost
    let reply = data.get_task(w2, 9).unwrap();
    assert_eq!((reply.task, reply.reduce), (0, false));
    let job_now = &data.jobs[&job];
    assert_eq!(job_now.status, JobStatus::Mapping);
    assert_eq!(job_now.map_tasks[0].worker_id, w2);
    assert_eq!(job_now.map_tasks[1].worker_id, 0);
    assert_eq!(job_now.map_tasks[1].map_task_status, TaskStatus::Idle);
    assert_eq!(job_now.map_tasks[2].worker_id, w2);
    assert_eq!(job_now.map_tasks[2].map_task_status, TaskStatus::Assigned);
    assert!(!job_now.is_full);
    assert_eq!(data.job_queue.iter().copied().collect::<Vec<u32>>(), vec![job]);
}

#[test]
fn reaping_in_the_reduce_phase_returns_the_job_to_the_map_phase() {
    let mut data = CoordinatorData::new();
    let w1 = data.register(0);
    let w2 = data.register(0);
    let job = submit(&mut data, 2, 2);
    data.get_task(w1, 0).unwrap();
    data.get_task(w2, 0).unwrap();
    data.finish_task(w1, job, 0, false).unwrap();
    data.finish_task(w2, job, 1, false).unwrap();
    assert_eq!(data.jobs[&job].status, JobStatus::Reducing);
    assert_eq!(
        data.jobs[&job].map_task_assignments,
        vec![
            MapTaskAssignment { task: 0, worker_id: w1 },
            MapTaskAssignment { task: 1, worker_id: w2 },
        ]
    );
    let r = data.get_task(w1, 0).unwrap();
    assert!(r.reduce);
    data.heartbeat(w2, 10).unwrap();
    let reply = data.get_task(w2, 10).unwrap();
    assert!(!data.workers.contains_key(&w1));
    let job_now = &data.jobs[&job];
    assert_eq!(job_now.status, JobStatus::Mapping);
    assert_eq!(job_now.map_task_assignments, vec![MapTaskAssignment { task: 1, worker_id: w2 }]);
    assert_eq!(job_now.reduce_tasks[0].reduce_task_status, TaskStatus::Idle);
    assert_eq!(job_now.reduce_tasks[0].worker_id, 0);
    assert_eq!((reply.task, reply.reduce, reply.wait), (0, false, false));
    assert_eq!(job_now.map_tasks[1].map_task_status, TaskStatus::Completed);
    // the map task is run again, and the reduce phase starts over
    data.finish_task(w2, job, 0, false).unwrap();
    assert_eq!(data.jobs[&job].status, JobStatus::Reducing);
    assert_eq!(
        data.jobs[&job].map_task_assignments,
        vec![
            MapTaskAssignment { task: 0, worker_id: w2 },
            MapTaskAssignment { task: 1, worker_id: w2 },
        ]
    );
    let again = data.get_task(w2, 10).unwrap();
    assert_eq!((again.task, again.reduce), (0, true));
}

#[test]
fn reaping_leaves_other_jobs_alone() {
    let mut data = CoordinatorData::new();
    let w1 = data.register(0);
    let w2 = data.register(0);
    let first = submit(&mut data, 1, 1);
    let second = submit(&mut data, 1, 1);
    assert_eq!(data.get_task(w1, 0).unwrap().job_id, first);
    assert_eq!(data.get_task(w2, 0).unwrap().job_id, second);
    data.heartbeat(w2, 8).unwrap();
    let reply = data.get_task(w2, 8).unwrap();
    assert_eq!((reply.job_id, reply.task), (first, 0));
    assert!(data.jobs[&second].is_full);
    assert_eq!(data.jobs[&second].map_tasks[0].worker_id, w2);
    assert_eq!(data.jobs[&second].map_tasks[0].map_task_status, TaskStatus::Assigned);
}

#[test]
fn several_workers_are_reaped_in_one_call() {
    let mut data = CoordinatorData::new();
    let w1 = data.register(0);
    let w2 = data.register(0);
    let w3 = data.register(0);
    let job = submit(&mut data, 3, 1);
    data.get_task(w1, 0).unwrap();
    data.get_task(w2, 0).unwrap();
    data.get_task(w3, 0).unwrap();
    let w4 = data.register(30);
    let reply = data.get_task(w4, 30).unwrap();
    assert_eq!(data.workers.len(), 1);
    assert_eq!(reply.task, 0);
    let job_now = &data.jobs[&job];
    assert_eq!(job_now.map_tasks[1].map_task_status, TaskStatus::Idle);
    assert_eq!(job_now.map_tasks[2].map_task_status, TaskStatus::Idle);
    assert_eq!(job_now.map_tasks[1].worker_id, 0);
    assert_eq!(job_now.map_tasks[2].worker_id, 0);
}

#[test]
fn retried_map_task_is_offered_again() {
    let mut data = CoordinatorData::new();
    let w1 = data.register(0);
    let w2 = data.register(0);
    let job = submit(&mut data, 2, 1);
    let first = data.get_task(w1, 0).unwrap();
    assert_eq!(first.task, 0);
    assert_eq!(data.fail_task(w1, job, 0, false, true, "disk full".to_string()), Ok(()));
    let task = &data.jobs[&job].map_tasks[0];
    assert_eq!(task.map_task_status, TaskStatus::Idle);
    assert_eq!(task.worker_id, 0);
    assert_eq!(data.jobs[&job].status, JobStatus::Mapping);
    assert_eq!(data.jobs[&job].error_message, Some("disk full".to_string()));
    let worker = &data.workers[&w1];
    assert_eq!(worker.worker_status, WorkerStatus::Idle);
    assert_eq!(worker.job_id, 0);
    assert_eq!(worker.task_number, 0);
    let again = data.get_task(w2, 0).unwrap();
    assert_eq!((again.job_id, again.task, again.wait), (job, 0, false));
    let poll = data.poll_job(job).unwrap();
    assert!(!poll.done);
    assert!(!poll.failed);
    assert!(poll.errors.is_empty());
}

#[test]
fn failure_without_retry_aborts_the_job() {
    let mut data = CoordinatorData::new();
    let w = data.register(0);
    let job = submit(&mut data, 2, 2);
    data.get_task(w, 0).unwrap();
    assert_eq!(
        data.fail_task(w, job, 0, false, false, "bad input".to_string()),
        Err(CoordinatorError::JobAborted)
    );
    let job_now = &data.jobs[&job];
    assert_eq!(job_now.status, JobStatus::Failed);
    assert!(job_now.is_full);
    for task in &job_now.map_tasks {
        assert_eq!(task.map_task_status, TaskStatus::Failed);
    }
    for task in &job_now.reduce_tasks {
        assert_eq!(task.reduce_task_status, TaskStatus::Failed);
    }
    let poll = data.poll_job(job).unwrap();
    assert!(poll.done);
    assert!(poll.failed);
    assert_eq!(poll.errors, vec!["bad input".to_string()]);
    let worker = &data.workers[&w];
    assert_eq!(worker.worker_status, WorkerStatus::Idle);
    assert_eq!(worker.job_id, 0);
    assert!(data.get_task(w, 0).unwrap().wait);
}

#[test]
fn reduce_failure_before_the_map_phase_ends_is_refused() {
    let mut data = CoordinatorData::new();
    let w = data.register(0);
    let job = submit(&mut data, 2, 1);
    data.get_task(w, 0).unwrap();
    for retry in [true, false] {
        assert_eq!(
            data.fail_task(w, job, 0, true, retry, "too early".to_string()),
            Err(CoordinatorError::MapPhaseIncomplete)
        );
    }
    let job_now = &data.jobs[&job];
    assert_eq!(job_now.status, JobStatus::Mapping);
    assert_eq!(job_now.error_message, Some("too early".to_string()));
    assert_eq!(job_now.reduce_tasks[0].reduce_task_status, TaskStatus::Idle);
    assert_eq!(job_now.map_tasks[0].map_task_status, TaskStatus::Assigned);
    assert_eq!(data.workers[&w].worker_status, WorkerStatus::Busy);
    assert_eq!(data.workers[&w].job_id, job);
}

#[test]
fn reduce_failure_in_the_reduce_phase_is_retried() {
    let mut data = CoordinatorData::new();
    let w = data.register(0);
    let job = submit(&mut data, 1, 2);
    data.get_task(w, 0).unwrap();
    data.finish_task(w, job, 0, false).unwrap();
    let r = data.get_task(w, 0).unwrap();
    assert_eq!((r.task, r.reduce), (0, true));
    assert_eq!(data.fail_task(w, job, 0, true, true, "net".to_string()), Ok(()));
    assert_eq!(data.jobs[&job].reduce_tasks[0].reduce_task_status, TaskStatus::Idle);
    assert_eq!(data.jobs[&job].reduce_tasks[0].worker_id, 0);
    let again = data.get_task(w, 0).unwrap();
    assert_eq!((again.task, again.reduce), (0, true));
}

#[test]
fn fail_task_of_nonexistent_job_is_not_found() {
    let mut data = CoordinatorData::new();
    let w = data.register(0);
    assert_eq!(
        data.fail_task(w, 9, 0, false, true, "x".to_string()),
        Err(CoordinatorError::JobNotFound)
    );
    assert_eq!(
        data.fail_task(w, 9, 0, true, false, "x".to_string()),
        Err(CoordinatorError::JobNotFound)
    );
}

#[test]
fn fail_task_tolerates_an_unregistered_worker() {
    let mut data = CoordinatorData::new();
    let job = submit(&mut data, 1, 1);
    assert_eq!(data.fail_task(42, job, 0, false, true, "x".to_string()), Ok(()));
    assert!(data.workers.is_empty());
    assert_eq!(data.jobs[&job].error_message, Some("x".to_string()));
}

#[test]
fn retry_of_an_unknown_task_number_adds_a_record() {
    let mut data = CoordinatorData::new();
    let w = data.register(0);
    let job = submit(&mut data, 1, 1);
    assert_eq!(data.fail_task(w, job, 5, false, true, "x".to_string()), Ok(()));
    let tasks = &data.jobs[&job].map_tasks;
    assert_eq!(tasks.len(), 2);
    assert_eq!(tasks[1].map_task_number, 5);
    assert_eq!(tasks[1].map_task_status, TaskStatus::Idle);
    assert_eq!(tasks[1].worker_id, 0);
    // the added task has no input file
    assert_eq!(data.get_task(w, 0).unwrap().task, 0);
    data.jobs.get_mut(&job).unwrap().is_full = false;
    let extra = data.get_task(w, 0).unwrap();
    assert_eq!((extra.task, extra.wait), (5, false));
    assert_eq!(extra.file, "");
}

#[test]
fn finishing_a_task_twice_changes_nothing() {
    let mut data = CoordinatorData::new();
    let w = data.register(0);
    let job = submit(&mut data, 2, 1);
    data.get_task(w, 0).unwrap();
    assert_eq!(data.finish_task(w, job, 0, false), Ok(()));
    let statuses = |data: &CoordinatorData| {
        data.jobs[&job].map_tasks.iter().map(|t| (t.worker_id, t.map_task_status)).collect::<Vec<_>>()
    };
    let once = statuses(&data);
    assert_eq!(data.finish_task(w, job, 0, false), Ok(()));
    assert_eq!(statuses(&data), once);
    assert_eq!(data.jobs[&job].status, JobStatus::Mapping);
    // the second map task is still to do: the job has not moved on
    let next = data.get_task(w, 0).unwrap();
    assert_eq!((next.task, next.reduce), (1, false));
    data.finish_task(w, job, 1, false).unwrap();
    data.finish_task(w, job, 1, false).unwrap();
    assert_eq!(data.jobs[&job].status, JobStatus::Reducing);
    assert_eq!(data.jobs[&job].map_task_assignments.len(), 2);
    data.get_task(w, 0).unwrap();
    data.finish_task(w, job, 0, true).unwrap();
    assert_eq!(data.finish_task(w, job, 0, true), Ok(()));
    assert_eq!(data.jobs[&job].status, JobStatus::Done);
    assert!(data.job_queue.is_empty());
}

#[test]
fn finish_task_refuses_what_it_does_not_know() {
    let mut data = CoordinatorData::new();
    let w = data.register(0);
    let job = submit(&mut data, 1, 1);
    assert_eq!(data.finish_task(w + 1, job, 0, false), Err(CoordinatorError::WorkerNotFound));
    assert_eq!(data.finish_task(w, job + 1, 0, false), Err(CoordinatorError::JobNotFound));
    assert_eq!(data.finish_task(w, job, 1, false), Err(CoordinatorError::TaskNotFound));
    assert_eq!(data.finish_task(w, job, 1, true), Err(CoordinatorError::TaskNotFound));
    assert_eq!(data.jobs[&job].status, JobStatus::Pending);
    assert_eq!(data.jobs[&job].map_tasks[0].map_task_status, TaskStatus::Idle);
}

#[test]
fn ended_job_is_not_changed_any_more() {
    let mut data = CoordinatorData::new();
    let w = data.register(0);
    let job = submit(&mut data, 1, 1);
    data.get_task(w, 0).unwrap();
    assert!(data.fail_task(w, job, 0, false, false, "first".to_string()).is_err());
    assert_eq!(data.finish_task(w, job, 0, false), Ok(()));
    assert_eq!(
        data.fail_task(w, job, 0, false, false, "second".to_string()),
        Err(CoordinatorError::JobAborted)
    );
    assert_eq!(data.fail_task(w, job, 0, false, true, "third".to_string()), Ok(()));
    let w2 = data.register(50);
    assert!(data.get_task(w2, 50).unwrap().wait);
    let job_now = &data.jobs[&job];
    assert_eq!(job_now.status, JobStatus::Failed);
    assert_eq!(job_now.map_tasks[0].map_task_status, TaskStatus::Failed);
    assert_eq!(job_now.map_tasks[0].worker_id, w);
    assert_eq!(job_now.error_message, Some("first".to_string()));
    assert!(job_now.is_full);
    let poll = data.poll_job(job).unwrap();
    assert!(poll.done && poll.failed);
    assert_eq!(poll.errors, vec!["first".to_string()]);
}

#[test]
fn job_without_reduce_tasks_stays_in_the_reduce_phase() {
    let mut data = CoordinatorData::new();
    let w = data.register(0);
    let job = submit(&mut data, 1, 0);
    data.get_task(w, 0).unwrap();
    data.finish_task(w, job, 0, false).unwrap();
    assert_eq!(data.jobs[&job].status, JobStatus::Reducing);
    assert!(data.get_task(w, 0).unwrap().wait);
    assert_eq!(data.finish_task(w, job, 0, true), Err(CoordinatorError::TaskNotFound));
    assert!(!data.poll_job(job).unwrap().done);
}

#[test]
fn worker_that_holds_nothing_still_reopens_its_job_when_it_dies() {
    let mut data = CoordinatorData::new();
    let w1 = data.register(0);
    let w2 = data.register(0);
    let job = submit(&mut data, 2, 1);
    data.get_task(w1, 0).unwrap();
    data.fail_task(w1, job, 0, false, true, "x".to_string()).unwrap();
    assert_eq!(data.get_task(w2, 1).unwrap().task, 0);
    assert_eq!(data.get_task(w2, 1).unwrap().task, 1);
    // w1 has the job in its history and holds none of its tasks
    assert_eq!(data.workers[&w1].job_ids, vec![job]);
    assert!(data.jobs[&job].is_full);
    data.heartbeat(w2, 8).unwrap();
    let reply = data.get_task(w2, 8).unwrap();
    assert!(!data.workers.contains_key(&w1));
    assert!(reply.wait);
    assert!(!data.jobs[&job].is_full);
    assert_eq!(data.jobs[&job].map_tasks[0].worker_id, w2);
    assert_eq!(data.jobs[&job].map_tasks[1].worker_id, w2);
}

#[test]
fn retry_of_the_only_task_offers_it_again() {
    let mut data = CoordinatorData::new();
    let job = data
        .submit_job(&apps(), vec!["a".to_string()], "out".to_string(), "wc".to_string(), 1, Vec::new())
        .unwrap();
    let w = data.register(0);
    let first = data.get_task(w, 0).unwrap();
    assert_eq!((first.task, first.wait), (0, false));
    assert!(data.jobs[&job].is_full);
    assert_eq!(data.fail_task(w, job, 0, false, true, "e".to_string()), Ok(()));
    assert!(!data.jobs[&job].is_full);
    assert_eq!(data.jobs[&job].status, JobStatus::Mapping);
    let again = data.get_task(w, 0).unwrap();
    assert_eq!(again.job_id, job);
    assert_eq!(again.task, 0);
    assert_eq!(again.file, "a");
    assert!(!again.wait);
    assert!(!again.reduce);
}

#[test]
fn retry_of_the_last_reduce_task_offers_it_again() {
    let mut data = CoordinatorData::new();
    let w = data.register(0);
    let job = submit(&mut data, 1, 1);
    data.get_task(w, 0).unwrap();
    data.finish_task(w, job, 0, false).unwrap();
    let first = data.get_task(w, 0).unwrap();
    assert_eq!((first.task, first.reduce), (0, true));
    assert!(data.jobs[&job].is_full);
    assert_eq!(data.fail_task(w, job, 0, true, true, "e".to_string()), Ok(()));
    assert!(!data.jobs[&job].is_full);
    assert_eq!(data.jobs[&job].status, JobStatus::Reducing);
    let again = data.get_task(w, 0).unwrap();
    assert_eq!((again.task, again.reduce, again.wait), (0, true, false));
}

#[test]
fn map_retry_in_the_reduce_phase_returns_the_job_to_the_map_phase() {
    let mut data = CoordinatorData::new();
    let w = data.register(0);
    let job = submit(&mut data, 1, 2);
    data.get_task(w, 0).unwrap();
    data.finish_task(w, job, 0, false).unwrap();
    assert_eq!(data.jobs[&job].status, JobStatus::Reducing);
    assert_eq!(data.fail_task(w, job, 0, false, true, "lost output".to_string()), Ok(()));
    let job_now = &data.jobs[&job];
    assert_eq!(job_now.status, JobStatus::Mapping);
    assert!(!job_now.is_full);
    assert_eq!(job_now.map_tasks[0].map_task_status, TaskStatus::Idle);
    assert_eq!(job_now.map_tasks[0].worker_id, 0);
    // no reduce task goes out before the map task was run again
    let reply = data.get_task(w, 0).unwrap();
    assert_eq!((reply.task, reply.reduce, reply.wait), (0, false, false));
    assert!(data.get_task(w, 0).unwrap().wait);
    for task in &data.jobs[&job].reduce_tasks {
        assert_eq!(task.reduce_task_status, TaskStatus::Idle);
    }
    data.finish_task(w, job, 0, false).unwrap();
    assert_eq!(data.jobs[&job].status, JobStatus::Reducing);
    let next = data.get_task(w, 0).unwrap();
    assert_eq!((next.task, next.reduce, next.wait), (0, true, false));
}

#[test]
fn map_retry_in_the_reduce_phase_keeps_assigned_reduce_tasks() {
    let mut data = CoordinatorData::new();
    let w1 = data.register(0);
    let w2 = data.register(0);
    let job = submit(&mut data, 1, 2);
    data.get_task(w1, 0).unwrap();
    data.finish_task(w1, job, 0, false).unwrap();
    let r = data.get_task(w2, 0).unwrap();
    assert_eq!((r.task, r.reduce), (0, true));
    data.fail_task(w2, job, 0, false, true, "cannot fetch".to_string()).unwrap();
    assert_eq!(data.jobs[&job].status, JobStatus::Mapping);
    assert_eq!(data.jobs[&job].reduce_tasks[0].reduce_task_status, TaskStatus::Assigned);
    let m = data.get_task(w1, 0).unwrap();
    assert_eq!((m.task, m.reduce), (0, false));
    assert!(data.get_task(w2, 0).unwrap().wait);
}

#[test]
fn added_tasks_are_handed_out_by_number() {
    let mut data = CoordinatorData::new();
    let w = data.register(0);
    let job = submit(&mut data, 2, 1);
    data.fail_task(w, job, 7, false, true, "x".to_string()).unwrap();
    data.fail_task(w, job, 5, false, true, "x".to_string()).unwrap();
    let numbers: Vec<usize> = data.jobs[&job].map_tasks.iter().map(|t| t.map_task_number).collect();
    assert_eq!(numbers, vec![0, 1, 7, 5]);
    assert_eq!(data.get_task(w, 0).unwrap().task, 0);
    let second = data.get_task(w, 0).unwrap();
    assert_eq!((second.task, second.file.as_str()), (1, "f1"));
    assert!(data.jobs[&job].is_full);
    // a retry reopens the job; the idle task with the least number goes first
    data.fail_task(w, job, 1, false, true, "x".to_string()).unwrap();
    assert_eq!(data.get_task(w, 0).unwrap().task, 1);
    data.fail_task(w, job, 9, false, true, "x".to_string()).unwrap();
    let third = data.get_task(w, 0).unwrap();
    assert_eq!((third.task, third.file.as_str(), third.wait), (5, "", false));
    assert_eq!(data.get_task(w, 0).unwrap().task, 7);
    assert_eq!(data.get_task(w, 0).unwrap().task, 9);
    assert!(data.get_task(w, 0).unwrap().wait);
}

#[test]
fn every_input_file_keeps_its_task_after_added_records() {
    let mut data = CoordinatorData::new();
    let w = data.register(0);
    let job = submit(&mut data, 3, 2);
    data.fail_task(w, job, 9, false, true, "x".to_string()).unwrap();
    data.fail_task(w, job, 4, false, true, "x".to_string()).unwrap();
    for k in 0..3 {
        assert_eq!(data.finish_task(w, job, k, false), Ok(()));
        assert_eq!(data.jobs[&job].map_tasks[k].map_task_number, k);
        assert_eq!(data.jobs[&job].map_tasks[k].map_task_status, TaskStatus::Completed);
    }
    // the added records are still to do, and no task was asked for yet
    assert_eq!(data.jobs[&job].status, JobStatus::Pending);
    assert_eq!(data.finish_task(w, job, 9, false), Ok(()));
    assert_eq!(data.finish_task(w, job, 4, false), Ok(()));
    assert_eq!(data.jobs[&job].status, JobStatus::Reducing);
    for k in 0..2 {
        assert_eq!(data.finish_task(w, job, k, true), Ok(()));
    }
    assert_eq!(data.jobs[&job].status, JobStatus::Done);
}

#[test]
fn reduce_report_outside_the_reduce_phase_is_taken() {
    let mut data = CoordinatorData::new();
    let w = data.register(0);
    let job = submit(&mut data, 2, 2);
    assert_eq!(data.finish_task(w, job, 1, true), Ok(()));
    let job_now = &data.jobs[&job];
    assert_eq!(job_now.status, JobStatus::Pending);
    assert_eq!(job_now.reduce_tasks[1].reduce_task_status, TaskStatus::Completed);
    assert_eq!(job_now.reduce_tasks[0].reduce_task_status, TaskStatus::Idle);
    assert_eq!(data.finish_task(w, job, 0, true), Ok(()));
    assert_eq!(data.jobs[&job].status, JobStatus::Done);
    assert!(data.job_queue.is_empty());
    assert!(data.poll_job(job).unwrap().done);
}

#[test]
fn finished_task_keeps_its_holder() {
    let mut data = CoordinatorData::new();
    let w1 = data.register(0);
    let w2 = data.register(0);
    let job = submit(&mut data, 2, 1);
    data.get_task(w1, 0).unwrap();
    // another worker reports the task: the record still names the one that was given it
    assert_eq!(data.finish_task(w2, job, 0, false), Ok(()));
    assert_eq!(data.jobs[&job].map_tasks[0].worker_id, w1);
    assert_eq!(data.jobs[&job].map_tasks[0].map_task_status, TaskStatus::Completed);
    assert_eq!(data.workers[&w1].worker_status, WorkerStatus::Busy);
    assert_eq!(data.workers[&w2].worker_status, WorkerStatus::Idle);
}

#[test]
fn unassigned_completed_task_is_left_out_of_the_assignments() {
    let mut data = CoordinatorData::new();
    let w = data.register(0);
    let job = submit(&mut data, 2, 1);
    assert_eq!(data.get_task(w, 0).unwrap().task, 0);
    data.finish_task(w, job, 0, false).unwrap();
    data.finish_task(w, job, 1, false).unwrap();
    assert_eq!(data.jobs[&job].status, JobStatus::Reducing);
    assert_eq!(
        data.jobs[&job].map_task_assignments,
        vec![MapTaskAssignment { task: 0, worker_id: w }]
    );
}
