use laps::job::{admit_poller, next_job_id, poll_interval, poll_step, PollStep, SubmitError};
use laps::registry::{
    cancelled_results, get_registered_modules, registration_adds_module, shutdown_action,
    ShutdownAction,
};
use laps::types::{JobInfo, JobOutcome, JobPoll, JobResult, JobSubmission, ModuleInfo, Vector};

fn png_image(width: u32, height: u32) -> Vec<u8> {
    let mut out = Vec::new();
    {
        let mut encoder = png::Encoder::new(&mut out, width, height);
        encoder.set_color(png::ColorType::Grayscale);
        encoder.set_depth(png::BitDepth::Eight);
        let mut writer = encoder.write_header().unwrap();
        writer.write_image_data(&vec![0u8; (width * height) as usize]).unwrap();
    }
    out
}

#[test]
fn job_validation() {
    //The map is taller than the points used below.
    let (width, height) = (60u32, 120u32);
    let map = png_image(width, height);
    let modules = vec![ModuleInfo::new("dummy", "0.0.0")];
    let lookup = |id: i32| if id == 1 { Some(&map) } else { None };

    let mut job_submission = JobSubmission {
        start: Vector { x: 0, y: 100 },
        stop: Vector { x: 0, y: 100 },
        map_id: 1,
        algorithm: ModuleInfo::new("dummy", "0.0.0"),
    };
    let check = |j: &JobSubmission| j.validity_check_png(&modules, lookup(j.map_id));

    //Equal start and stop points
    assert_eq!(check(&job_submission), Err(SubmitError::EqualEndpoints));
    job_submission.stop.y = 50;

    //Map Id is valid
    assert_eq!(check(&job_submission), Ok(()));

    //Invalid module
    job_submission.algorithm.version = "0.1.0".to_string();
    assert_eq!(check(&job_submission), Err(SubmitError::ModuleNotRegistered));

    //Invalid Map ID
    job_submission.map_id = 2;
    job_submission.algorithm.version = "0.0.0".to_string();
    assert_eq!(check(&job_submission), Err(SubmitError::MapNotFound));

    //Out of bounds
    job_submission.map_id = 1;
    assert_eq!(check(&job_submission), Ok(()));
    job_submission.start.x = width + 200;
    assert_eq!(check(&job_submission), Err(SubmitError::OutOfBounds));
    job_submission.start.x = 0;
    assert_eq!(check(&job_submission), Ok(()));
    job_submission.start.y = height + 300;
    assert_eq!(check(&job_submission), Err(SubmitError::OutOfBounds));
    job_submission.start.y = 0;
    assert_eq!(check(&job_submission), Ok(()));

    //Out of bounds, but this time for the stop point
    job_submission.stop.x = width + 200;
    assert_eq!(check(&job_submission), Err(SubmitError::OutOfBounds));
    job_submission.stop.x = 0;
    assert_eq!(check(&job_submission), Ok(()));
    job_submission.stop.y = height + 300;
    assert_eq!(check(&job_submission), Err(SubmitError::OutOfBounds));
}

#[test]
fn bounds_are_strict() {
    let modules = vec![ModuleInfo::new("dummy", "0.0.0")];
    let mut job = JobSubmission {
        start: Vector { x: 49, y: 49 },
        stop: Vector { x: 0, y: 0 },
        map_id: 1,
        algorithm: ModuleInfo::new("dummy", "0.0.0"),
    };
    assert_eq!(job.validity_check(&modules, Some((50, 50))), Ok(()));
    job.start.x = 50;
    assert_eq!(job.validity_check(&modules, Some((50, 50))), Err(SubmitError::OutOfBounds));
    job.start.x = 49;
    job.stop.y = 50;
    assert_eq!(job.validity_check(&modules, Some((50, 50))), Err(SubmitError::OutOfBounds));
}

#[test]
fn first_failed_check_wins() {
    let job = JobSubmission {
        start: Vector { x: 500, y: 500 },
        stop: Vector { x: 500, y: 500 },
        map_id: 9,
        algorithm: ModuleInfo::new("nobody", "1"),
    };
    assert_eq!(job.validity_check(&vec![], None), Err(SubmitError::EqualEndpoints));
    let job = JobSubmission { stop: Vector { x: 1, y: 1 }, ..job };
    assert_eq!(job.validity_check(&vec![], None), Err(SubmitError::ModuleNotRegistered));
}

#[test]
fn unreadable_map_is_internal_error() {
    let modules = vec![ModuleInfo::new("dummy", "0.0.0")];
    let job = JobSubmission {
        start: Vector { x: 1, y: 1 },
        stop: Vector { x: 2, y: 2 },
        map_id: 1,
        algorithm: ModuleInfo::new("dummy", "0.0.0"),
    };
    let garbage = b"FOO".to_vec();
    assert_eq!(job.validity_check_png(&modules, Some(&garbage)), Err(SubmitError::Internal));
}

#[test]
fn error_messages() {
    assert_eq!(SubmitError::EqualEndpoints.message(), "Start and end points are equal");
    assert_eq!(SubmitError::ModuleNotRegistered.message(), "Module does not exist");
    assert_eq!(SubmitError::MapNotFound.message(), "Invalid map id");
    assert_eq!(SubmitError::OutOfBounds.message(), "Points are out of bounds");
    assert_eq!(SubmitError::Internal.message(), "internal server error");
}

#[test]
fn registry_decisions() {
    assert!(registration_adds_module(1));
    assert!(!registration_adds_module(2));
    assert!(!registration_adds_module(0));
    assert_eq!(shutdown_action(1), ShutdownAction::KeepRunning);
    assert_eq!(shutdown_action(0), ShutdownAction::ShutDown { negative: false });
    assert_eq!(shutdown_action(-1), ShutdownAction::ShutDown { negative: true });
}

#[test]
fn admission_and_interval() {
    assert!(admit_poller(10, 10));
    assert!(!admit_poller(11, 10));
    assert!(admit_poller(1, 1));
    assert_eq!(poll_interval(10, 5), 2);
    assert_eq!(poll_interval(7, 2), 3);
}

#[test]
fn job_ids_from_counter() {
    assert_eq!(next_job_id(1), Some(1));
    assert_eq!(next_job_id(i32::MAX as i64), Some(i32::MAX));
    assert_eq!(next_job_id(i32::MAX as i64 + 1), None);
    assert_eq!(next_job_id(0), None);
    assert_eq!(next_job_id(-5), None);
}

#[test]
fn cancellation_records() {
    let jobs: Vec<JobInfo> = (0..5)
        .map(|i| JobInfo {
            job_id: i,
            start: Vector { x: 1, y: 1 },
            stop: Vector { x: 2, y: 2 },
            map_id: 1,
        })
        .collect();
    let results = cancelled_results(&jobs);
    assert_eq!(results.len(), 5);
    for (i, r) in results.iter().enumerate() {
        assert_eq!(r.job_id, i as i32);
        assert_eq!(r.outcome, JobOutcome::Cancelled);
        assert!(r.points.is_empty());
    }
}

#[test]
fn poll_classification() {
    let ok = JobResult {
        job_id: 3,
        outcome: JobOutcome::Success,
        points: vec![Vector { x: 1, y: 2 }],
    };
    match JobPoll::from_slot(Some(ok)) {
        JobPoll::Ready { result } => assert_eq!(result.points, vec![Vector { x: 1, y: 2 }]),
        _ => panic!("expected a ready result"),
    }
    let failed = JobResult { job_id: 3, outcome: JobOutcome::Failure, points: vec![] };
    assert!(matches!(JobPoll::from_slot(Some(failed)), JobPoll::Error));
    let cancelled = JobResult { job_id: 3, outcome: JobOutcome::Cancelled, points: vec![] };
    assert!(matches!(JobPoll::from_slot(Some(cancelled)), JobPoll::Cancelled));
    assert!(matches!(JobPoll::from_slot(None), JobPoll::Pending));
}

#[test]
fn list() {
    //Entries that could not be read are skipped.
    assert!(get_registered_modules(&vec![]).is_empty());
    let entries = vec![Some(ModuleInfo::new("dummy", "0")), None, Some(ModuleInfo::new("dummy", "1"))];
    let modules = get_registered_modules(&entries);
    let expected = vec![ModuleInfo::new("dummy", "0"), ModuleInfo::new("dummy", "1")];
    assert_eq!(modules.len(), expected.len());
    for m in modules {
        assert!(expected.contains(&m));
    }
}

#[test]
fn poll_steps() {
    assert!(matches!(poll_step(0, 3, None), PollStep::Sleep { again: true }));
    assert!(matches!(poll_step(1, 3, None), PollStep::Sleep { again: true }));
    assert!(matches!(poll_step(2, 3, None), PollStep::Sleep { again: false }));
    assert!(matches!(poll_step(0, 1, None), PollStep::Sleep { again: false }));
    let done = JobResult { job_id: 1, outcome: JobOutcome::Success, points: vec![Vector { x: 5, y: 6 }] };
    match poll_step(0, 3, Some(done)) {
        PollStep::Answer { poll: JobPoll::Ready { result } } => {
            assert_eq!(result.points, vec![Vector { x: 5, y: 6 }])
        }
        _ => panic!("expected a ready answer"),
    }
    let cancelled = JobResult { job_id: 1, outcome: JobOutcome::Cancelled, points: vec![] };
    assert!(matches!(
        poll_step(2, 3, Some(cancelled)),
        PollStep::Answer { poll: JobPoll::Cancelled }
    ));
}
