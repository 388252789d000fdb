use laps::coordinator::Coordinator;
use laps::job::{PollError, SubmitError};
use laps::types::{JobOutcome, JobPoll, JobResult, JobSubmission, ModuleInfo, Vector};

fn job_of(start: (u32, u32), stop: (u32, u32), module: &ModuleInfo) -> JobSubmission {
    JobSubmission {
        start: Vector { x: start.0, y: start.1 },
        stop: Vector { x: stop.0, y: stop.1 },
        map_id: 1,
        algorithm: module.duplicate(),
    }
}

const MAP: Option<(u32, u32)> = Some((50, 50));

#[test]
fn module_registration() {
    let mut store = Coordinator::new(100);
    let module = ModuleInfo::new("test_module", "1.0.0");
    assert_eq!(store.register_worker(&module), 1);
    assert!(store.is_registered(&module));
    assert!(store.shutdown_worker(&module));
    assert!(!store.is_registered(&module));
}

#[test]
fn queue_cancellation() {
    let mut store = Coordinator::new(100);
    let module = ModuleInfo::new("mod", "ver");
    store.register_worker(&module);

    const JOB_COUNT: u32 = 5;
    let mut tokens = Vec::new();
    for i in 0..JOB_COUNT {
        let job = job_of((1, 1), (2, 2 + i), &module);
        tokens.push(store.submit_job(&job, MAP).unwrap());
    }
    assert_eq!(store.queued_jobs(&module).len(), JOB_COUNT as usize);

    assert!(store.shutdown_worker(&module));
    assert!(store.queued_jobs(&module).is_empty());
    for t in &tokens {
        assert!(matches!(store.poll(t), Ok(JobPoll::Cancelled)));
    }
    for i in 0..JOB_COUNT {
        let job = job_of((1, 1), (2, 2 + i), &module);
        assert!(store.cached_token(&job).is_none());
    }
}

#[test]
fn concurrent_modules() {
    let mut store = Coordinator::new(100);
    let workers = 2i64;
    let module = ModuleInfo::new("laps-test", "0.1.0");
    for _ in 0..workers {
        store.register_worker(&module);
    }
    assert!(store.is_registered(&module));
    assert_eq!(store.workers_of(&module), workers);

    store.shutdown_worker(&module);
    assert!(store.is_registered(&module));
    assert_eq!(store.workers_of(&module), workers - 1);

    for _ in 1..workers {
        store.shutdown_worker(&module);
    }
    assert!(!store.is_registered(&module));
    assert_eq!(store.workers_of(&module), 0);
}

#[test]
fn submission() {
    let mut store = Coordinator::new(100);
    let algorithm = ModuleInfo::new("dummy", "0.0.0");
    store.register_worker(&algorithm);

    let fake_algorithm = ModuleInfo::new("does-not-exist", "0.0.0");
    let job = job_of((1, 2), (2, 1), &fake_algorithm);
    assert_eq!(store.submit_job(&job, MAP), Err(SubmitError::ModuleNotRegistered));

    let job = job_of((1, 2), (2, 1), &algorithm);
    let token = store.submit_job(&job, MAP).unwrap();

    assert_eq!(store.poll(&"256".to_string()).unwrap_err(), PollError::NotFound);
    assert!(matches!(store.poll(&token), Ok(JobPoll::Pending)));

    let job_id = 1;
    assert_eq!(store.job_id_of(&token), Some(job_id));
    store.write_result(JobResult {
        job_id,
        outcome: JobOutcome::Success,
        points: vec![Vector { x: 0, y: 0 }, Vector { x: 0, y: 0 }],
    });
    match store.poll(&token) {
        Ok(JobPoll::Ready { result }) => {
            assert_eq!(result.points, vec![Vector { x: 0, y: 0 }, Vector { x: 0, y: 0 }])
        }
        _ => panic!("expected a ready result"),
    }
}

#[test]
fn rate_limiting() {
    let max_clients = 3;
    let mut store = Coordinator::new(max_clients);
    for _ in 0..max_clients {
        assert!(store.begin_poll());
    }
    assert_eq!(store.poll(&"256".to_string()).unwrap_err(), PollError::Unavailable);
    store.end_poll();
    assert_eq!(store.poll(&"256".to_string()).unwrap_err(), PollError::NotFound);
    assert_eq!(store.active_pollers(), max_clients - 1);
}

#[test]
fn job_cache() {
    let mut store = Coordinator::new(100);
    let algorithm = ModuleInfo::new("dummy", "0.0.0");
    store.register_worker(&algorithm);

    let job = job_of((1, 2), (2, 1), &algorithm);
    let first_token = store.submit_job(&job, MAP).unwrap();
    assert_eq!(store.submit_job(&job, MAP).unwrap(), first_token);

    let job = job_of((2, 1), (1, 2), &algorithm);
    assert_ne!(store.submit_job(&job, MAP).unwrap(), first_token);
}

#[test]
fn identical_submissions_dispatch_once() {
    let mut store = Coordinator::new(100);
    let m = ModuleInfo::new("dummy", "0.0.0");
    store.register_worker(&m);
    let job = job_of((1, 2), (3, 1), &m);
    let t1 = store.submit(&job, MAP, "first".to_string()).unwrap();
    let t2 = store.submit(&job, MAP, "second".to_string()).unwrap();
    let t3 = store.submit_job(&job, MAP).unwrap();
    assert_eq!(t1, "first");
    assert_eq!(t2, "first");
    assert_eq!(t3, "first");
    assert_eq!(store.queued_jobs(&m).len(), 1);
    assert_eq!(store.last_job_id(), 1);
}

#[test]
fn distinct_submissions_get_increasing_ids() {
    let mut store = Coordinator::new(100);
    let m = ModuleInfo::new("dummy", "0.0.0");
    store.register_worker(&m);
    let a = store.submit(&job_of((1, 2), (3, 1), &m), MAP, "a".to_string()).unwrap();
    let b = store.submit(&job_of((3, 1), (1, 2), &m), MAP, "b".to_string()).unwrap();
    let c = store.submit(&job_of((0, 0), (1, 2), &m), MAP, "c".to_string()).unwrap();
    assert_eq!((a.as_str(), b.as_str(), c.as_str()), ("a", "b", "c"));
    let ids: Vec<i32> = [a, b, c].iter().map(|t| store.job_id_of(t).unwrap()).collect();
    assert_eq!(ids, vec![1, 2, 3]);
    let queued: Vec<i32> = store.queued_jobs(&m).iter().map(|j| j.job_id).collect();
    assert_eq!(queued, vec![1, 2, 3]);
}

#[test]
fn last_of_n_workers_deregisters() {
    let mut store = Coordinator::new(100);
    let m = ModuleInfo::new("laps-test", "0.1.0");
    let n = 4;
    for _ in 0..n {
        store.register_worker(&m);
    }
    for _ in 0..n - 1 {
        assert!(!store.shutdown_worker(&m));
        assert!(store.is_registered(&m));
    }
    assert!(store.shutdown_worker(&m));
    assert!(!store.is_registered(&m));
}

#[test]
fn cascade_leaves_other_modules_alone() {
    let mut store = Coordinator::new(100);
    let gone = ModuleInfo::new("gone", "1");
    let stays = ModuleInfo::new("stays", "1");
    store.register_worker(&gone);
    store.register_worker(&stays);
    let tg = store.submit_job(&job_of((1, 1), (2, 2), &gone), MAP).unwrap();
    let ts = store.submit_job(&job_of((1, 1), (2, 2), &stays), MAP).unwrap();
    store.shutdown_worker(&gone);
    assert!(matches!(store.poll(&tg), Ok(JobPoll::Cancelled)));
    assert!(matches!(store.poll(&ts), Ok(JobPoll::Pending)));
    assert_eq!(store.queued_jobs(&stays).len(), 1);
    assert!(store.cached_token(&job_of((1, 1), (2, 2), &stays)).is_some());
    //A new identical submission to the gone module is now rejected rather than reusing its token.
    assert_eq!(
        store.submit_job(&job_of((1, 1), (2, 2), &gone), MAP),
        Err(SubmitError::ModuleNotRegistered)
    );
}

#[test]
fn admission_reopens_after_a_poll_completes() {
    let mut store = Coordinator::new(2);
    assert!(store.begin_poll());
    assert!(store.begin_poll());
    assert!(!store.begin_poll());
    assert_eq!(store.active_pollers(), 2);
    store.end_poll();
    assert!(store.begin_poll());
}

#[test]
fn cascade_twice_on_empty_module() {
    let mut store = Coordinator::new(100);
    let m = ModuleInfo::new("idle", "1");
    let other = ModuleInfo::new("busy", "1");
    store.register_worker(&other);
    let t = store.submit_job(&job_of((1, 1), (2, 2), &other), MAP).unwrap();
    assert_eq!(store.cancel_module(&m), 0);
    assert_eq!(store.cancel_module(&m), 0);
    assert!(matches!(store.poll(&t), Ok(JobPoll::Pending)));
    assert_eq!(store.queued_jobs(&other).len(), 1);
    assert!(store.is_registered(&other));
}

#[test]
fn accepted_job_then_result() {
    let mut store = Coordinator::new(100);
    let m = ModuleInfo::new("dummy", "0.0.0");
    store.register_worker(&m);
    let job = job_of((1, 2), (3, 1), &m);
    let token = store.submit_job(&job, MAP).unwrap();
    assert!(!token.is_empty());
    assert!(matches!(store.poll(&token), Ok(JobPoll::Pending)));
    let job_id = store.job_id_of(&token).unwrap();
    store.write_result(JobResult {
        job_id,
        outcome: JobOutcome::Success,
        points: vec![Vector { x: 1, y: 2 }, Vector { x: 3, y: 1 }],
    });
    match store.poll(&token) {
        Ok(JobPoll::Ready { result }) => {
            assert_eq!(result.points, vec![Vector { x: 1, y: 2 }, Vector { x: 3, y: 1 }])
        }
        _ => panic!("expected a ready result"),
    }
    //The result stays for a retry.
    assert!(matches!(store.poll(&token), Ok(JobPoll::Ready { .. })));
}

#[test]
fn equal_endpoints_consume_nothing() {
    let mut store = Coordinator::new(100);
    let m = ModuleInfo::new("dummy", "0.0.0");
    store.register_worker(&m);
    let job = job_of((4, 4), (4, 4), &m);
    assert_eq!(store.submit_job(&job, MAP), Err(SubmitError::EqualEndpoints));
    assert_eq!(store.last_job_id(), 0);
    assert!(store.queued_jobs(&m).is_empty());
    assert!(store.cached_token(&job).is_none());
}

#[test]
fn failed_job_polls_as_error() {
    let mut store = Coordinator::new(100);
    let m = ModuleInfo::new("laps-failing-test", "0.1.0");
    store.register_worker(&m);
    let token = store.submit_job(&job_of((1, 1), (40, 40), &m), MAP).unwrap();
    let job_id = store.job_id_of(&token).unwrap();
    store.write_result(JobResult { job_id, outcome: JobOutcome::Failure, points: vec![] });
    assert!(matches!(store.poll(&token), Ok(JobPoll::Error)));
}

#[test]
fn map_errors_from_store() {
    let mut store = Coordinator::new(100);
    let m = ModuleInfo::new("dummy", "0.0.0");
    store.register_worker(&m);
    let job = job_of((1, 1), (60, 2), &m);
    assert_eq!(store.submit_job(&job, None), Err(SubmitError::MapNotFound));
    assert_eq!(store.submit_job(&job, MAP), Err(SubmitError::OutOfBounds));
    assert_eq!(store.last_job_id(), 0);
}

#[test]
fn stray_shutdown_goes_negative() {
    let mut store = Coordinator::new(100);
    let m = ModuleInfo::new("ghost", "1");
    assert!(store.shutdown_worker(&m));
    assert_eq!(store.workers_of(&m), -1);
    assert!(!store.is_registered(&m));
    //A registration that only brings the count back to zero does not register.
    assert_eq!(store.register_worker(&m), 0);
    assert!(!store.is_registered(&m));
}
