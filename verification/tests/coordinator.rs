use map_reduce::coordinator::Coordinator;
use map_reduce::job::JobStatus;
use map_reduce::message::{Code, CoordinatorError};
use map_reduce::task::TaskStatus;
use map_reduce::worker::WorkerStatus;

fn apps() -> Vec<String> {
    vec!["wc".to_string()]
}

fn submit(coordinator: &mut Coordinator, files: &[&str], n_reduce: u32) -> u32 {
    coordinator
        .submit_job(
            &apps(),
            files.iter().map(|f| f.to_string()).collect(),
            "out".to_string(),
            "wc".to_string(),
            n_reduce,
            b"args".to_vec(),
        )
        .unwrap()
}

#[test]
fn fresh_coordinator_has_no_job_and_no_worker() {
    let coordinator = Coordinator::new();
    let data = coordinator.data();
    assert_eq!((data.job_id, data.worker_id), (0, 0));
    assert!(data.jobs.is_empty() && data.workers.is_empty() && data.job_queue.is_empty());
}

#[test]
fn scenario_two_files_one_reduce_two_workers() {
    let mut coordinator = Coordinator::new();
    let job = submit(&mut coordinator, &["a.txt", "b.txt"], 1);
    let w1 = coordinator.register(0);
    let w2 = coordinator.register(0);
    let t1 = coordinator.get_task(w1, 0).unwrap();
    let t2 = coordinator.get_task(w2, 0).unwrap();
    assert!(!t1.wait && !t2.wait);
    assert!(!t1.reduce && !t2.reduce);
    assert_ne!(t1.task, t2.task);
    let mut indices = vec![t1.task, t2.task];
    indices.sort();
    assert_eq!(indices, vec![0, 1]);
    assert_eq!(coordinator.finish_task(w1, job, t1.task, false), Ok(()));
    assert_eq!(coordinator.finish_task(w2, job, t2.task, false), Ok(()));
    assert_eq!(coordinator.data().jobs[&job].status, JobStatus::Reducing);
    let t3 = coordinator.get_task(w1, 0).unwrap();
    assert!(!t3.wait);
    assert!(t3.reduce);
    assert_eq!(t3.task, 0);
    assert_eq!(t3.job_id, job);
}

#[test]
fn scenario_silent_worker_loses_its_map_task() {
    let mut coordinator = Coordinator::new();
    let job = submit(&mut coordinator, &["a.txt"], 1);
    let w1 = coordinator.register(0);
    let held = coordinator.get_task(w1, 0).unwrap();
    assert!(!held.wait && !held.reduce);
    let w2 = coordinator.register(8);
    let taken = coordinator.get_task(w2, 8).unwrap();
    assert!(!taken.wait && !taken.reduce);
    assert_eq!(taken.task, held.task);
    assert_eq!(taken.job_id, job);
    assert!(!coordinator.data().workers.contains_key(&w1));
    assert!(coordinator.data().workers.contains_key(&w2));
}

#[test]
fn scenario_retry_offers_the_task_again() {
    let mut coordinator = Coordinator::new();
    let job = submit(&mut coordinator, &["a.txt", "b.txt"], 1);
    let w1 = coordinator.register(0);
    let w2 = coordinator.register(0);
    let held = coordinator.get_task(w1, 0).unwrap();
    assert_eq!(coordinator.fail_task(w1, job, held.task, false, true, "oops".to_string()), Ok(()));
    let again = coordinator.get_task(w2, 0).unwrap();
    assert_eq!((again.task, again.wait, again.reduce), (held.task, false, false));
    assert_eq!(coordinator.data().jobs[&job].map_tasks[0].worker_id, w2);
}

#[test]
fn scenario_failure_without_retry_shows_in_the_poll() {
    let mut coordinator = Coordinator::new();
    let job = submit(&mut coordinator, &["a.txt"], 1);
    let w = coordinator.register(0);
    let held = coordinator.get_task(w, 0).unwrap();
    let reply = coordinator.fail_task(w, job, held.task, false, false, "segfault".to_string());
    assert_eq!(reply, Err(CoordinatorError::JobAborted));
    assert_eq!(reply.unwrap_err().code(), Code::FailedPrecondition);
    let poll = coordinator.poll_job(job).unwrap();
    assert!(poll.done);
    assert!(poll.failed);
    assert_eq!(poll.errors, vec!["segfault".to_string()]);
    assert_eq!(coordinator.data().jobs[&job].status, JobStatus::Failed);
    assert_eq!(coordinator.data().jobs[&job].map_tasks[0].map_task_status, TaskStatus::Failed);
    assert_eq!(coordinator.data().workers[&w].worker_status, WorkerStatus::Idle);
}

#[test]
fn scenario_unknown_job_and_unknown_worker_are_not_found() {
    let mut coordinator = Coordinator::new();
    let poll = coordinator.poll_job(1);
    assert_eq!(poll.as_ref().err(), Some(&CoordinatorError::JobNotFound));
    assert_eq!(poll.err().unwrap().code(), Code::NotFound);
    let beat = coordinator.heartbeat(1, 0);
    assert_eq!(beat, Err(CoordinatorError::WorkerNotFound));
    assert_eq!(beat.unwrap_err().code(), Code::NotFound);
}

#[test]
fn unknown_application_is_an_invalid_argument() {
    let mut coordinator = Coordinator::new();
    let reply = coordinator.submit_job(
        &apps(),
        vec!["a.txt".to_string()],
        "out".to_string(),
        "nope".to_string(),
        1,
        Vec::new(),
    );
    assert_eq!(reply, Err(CoordinatorError::UnknownApplication));
    assert_eq!(reply.unwrap_err().code(), Code::InvalidArgument);
    assert!(coordinator.data().jobs.is_empty());
}

#[test]
fn heartbeat_through_the_coordinator_refreshes_the_worker() {
    let mut coordinator = Coordinator::new();
    let w = coordinator.register(3);
    assert_eq!(coordinator.heartbeat(w, 9), Ok(()));
    assert_eq!(coordinator.data().workers[&w].heartbeat_time, 9);
    let _job = submit(&mut coordinator, &["a.txt"], 1);
    assert!(!coordinator.get_task(w, 16).unwrap().wait);
    assert_eq!(coordinator.get_task(w, 17).err(), Some(CoordinatorError::WorkerNotFound));
}

#[test]
fn finishing_twice_through_the_coordinator_changes_nothing() {
    let mut coordinator = Coordinator::new();
    let job = submit(&mut coordinator, &["a.txt", "b.txt"], 1);
    let w = coordinator.register(0);
    coordinator.get_task(w, 0).unwrap();
    assert_eq!(coordinator.finish_task(w, job, 0, false), Ok(()));
    assert_eq!(coordinator.finish_task(w, job, 0, false), Ok(()));
    let job_now = &coordinator.data().jobs[&job];
    assert_eq!(job_now.status, JobStatus::Mapping);
    assert_eq!(job_now.map_tasks[0].map_task_status, TaskStatus::Completed);
    assert_eq!(job_now.map_tasks[1].map_task_status, TaskStatus::Idle);
}

#[test]
fn job_identifiers_skip_nothing_after_a_refusal() {
    let mut coordinator = Coordinator::new();
    let refused = coordinator.submit_job(
        &apps(),
        vec!["a".to_string()],
        "out".to_string(),
        "no-such-app".to_string(),
        1,
        Vec::new(),
    );
    assert_eq!(refused.unwrap_err().code(), Code::InvalidArgument);
    assert_eq!(submit(&mut coordinator, &["a"], 1), 1);
    assert_eq!(submit(&mut coordinator, &["b"], 1), 2);
}

#[test]
fn scenario_retry_of_a_single_file_job() {
    let mut coordinator = Coordinator::new();
    assert_eq!(submit(&mut coordinator, &["a"], 1), 1);
    assert_eq!(coordinator.register(0), 1);
    assert_eq!(coordinator.get_task(1, 0).unwrap().task, 0);
    assert_eq!(coordinator.fail_task(1, 1, 0, false, true, "e".to_string()), Ok(()));
    let reply = coordinator.get_task(1, 0).unwrap();
    assert_eq!((reply.job_id, reply.task, reply.file.as_str(), reply.wait), (1, 0, "a", false));
}
