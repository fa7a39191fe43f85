use syscore::job::{Job, JobAction, JobError, JobEvent, Phase};
use syscore::language::Language;

/// Runs `events` through a fresh job and returns every action it asked for.
fn drive(job: &mut Job, events: Vec<JobEvent>) -> Vec<JobAction> {
    events.into_iter().map(|e| job.step(e)).collect()
}

fn count(actions: &[JobAction], pred: fn(&JobAction) -> bool) -> usize {
    actions.iter().filter(|a| pred(a)).count()
}

fn is_create(a: &JobAction) -> bool {
    matches!(a, JobAction::CreateContainer { .. })
}

fn is_remove(a: &JobAction) -> bool {
    matches!(a, JobAction::RemoveContainer { .. })
}

fn is_build(a: &JobAction) -> bool {
    matches!(a, JobAction::BuildImage { .. })
}

fn is_inspect(a: &JobAction) -> bool {
    matches!(a, JobAction::InspectImage { .. })
}

fn created() -> JobEvent {
    JobEvent::Created { container: Ok("c1".to_string()) }
}

#[test]
fn successful_job_uploads_its_trace() {
    let mut job = Job::new("job-1".to_string(), Language::Python, "print(1)".to_string());
    let actions = drive(
        &mut job,
        vec![
            JobEvent::Begin,
            JobEvent::ImageChecked { present: true },
            created(),
            JobEvent::Started { result: Ok(()) },
            JobEvent::Exited { code: Some(0) },
            JobEvent::LogChunk { bytes: b"1\n".to_vec() },
            JobEvent::LogsEnd,
            JobEvent::Removed { result: Ok(()) },
        ],
    );
    match &actions[0] {
        JobAction::InspectImage { image } => assert_eq!(image, "okernel/python-runner"),
        _ => panic!("expected an inspection"),
    }
    match &actions[1] {
        JobAction::CreateContainer { name, spec } => {
            assert_eq!(name, "okernel-job-job-1");
            assert_eq!(spec.cmd, vec!["python3", "/runner.py", "print(1)"]);
            assert_eq!(spec.network_mode, "none");
        }
        _ => panic!("expected a create"),
    }
    match &actions[7] {
        JobAction::UploadTrace { job_id, body } => {
            assert_eq!(job_id, "job-1");
            assert_eq!(
                body,
                "{\"job_id\":\"job-1\",\"trace_data\":[{\"type\":\"Stdout\",\"content\":\"1\"}]}"
            );
            let parsed: serde_json::Value = serde_json::from_str(body).unwrap();
            assert_eq!(parsed["trace_data"][0]["content"], "1");
        }
        _ => panic!("expected an upload"),
    }
    match job.step(JobEvent::Uploaded { result: Ok(()) }) {
        JobAction::Finish { result } => {
            let response = syscore::api::execute_response(result);
            assert_eq!(response.status, "success");
            assert_eq!(response.output, "job-1");
        }
        _ => panic!("expected success"),
    }
    assert_eq!(job.phase(), Phase::Done);
    assert_eq!(count(&actions, is_create), count(&actions, is_remove));
    assert_eq!(actions.iter().filter(|a| matches!(a, JobAction::UploadTrace { .. })).count(), 1);
}

#[test]
fn start_failure_removes_the_container() {
    let mut job = Job::new("j".to_string(), Language::Cpp, "x".to_string());
    let actions = drive(
        &mut job,
        vec![
            JobEvent::Begin,
            JobEvent::ImageChecked { present: true },
            created(),
            JobEvent::Started { result: Err("boom".to_string()) },
        ],
    );
    match &actions[3] {
        JobAction::RemoveContainer { id } => assert_eq!(id, "c1"),
        _ => panic!("expected a removal"),
    }
    match job.step(JobEvent::Removed { result: Err("gone".to_string()) }) {
        JobAction::Finish { result: Err(e) } => {
            assert_eq!(e.message(), "Failed to start container: boom");
        }
        _ => panic!("expected the start failure"),
    }
    assert_eq!(count(&actions, is_create), count(&actions, is_remove));
}

#[test]
fn create_failure_needs_no_removal() {
    let mut job = Job::new("j".to_string(), Language::Python, "x".to_string());
    let actions = drive(
        &mut job,
        vec![
            JobEvent::Begin,
            JobEvent::ImageChecked { present: true },
            JobEvent::Created { container: Err("no space".to_string()) },
        ],
    );
    match &actions[2] {
        JobAction::Finish { result: Err(e) } => {
            assert_eq!(e.message(), "Failed to create container: no space")
        }
        _ => panic!("expected the create failure"),
    }
    assert_eq!(count(&actions, is_create), 1);
    assert_eq!(count(&actions, is_remove), 0);
    assert_eq!(job.phase(), Phase::Done);
}

#[test]
fn wait_and_log_failures_still_collect_and_remove() {
    let mut job = Job::new("j".to_string(), Language::Python, "x".to_string());
    let actions = drive(
        &mut job,
        vec![
            JobEvent::Begin,
            JobEvent::ImageChecked { present: true },
            created(),
            JobEvent::Started { result: Ok(()) },
            JobEvent::Exited { code: None },
            JobEvent::LogError { message: "broken pipe".to_string() },
            JobEvent::LogChunk { bytes: b"partial\n".to_vec() },
            JobEvent::LogsEnd,
            JobEvent::Removed { result: Err("busy".to_string()) },
        ],
    );
    assert!(matches!(actions[4], JobAction::ReadLogs { .. }));
    assert!(matches!(actions[5], JobAction::ReadLogs { .. }));
    assert!(matches!(actions[8], JobAction::UploadTrace { .. }));
    assert_eq!(count(&actions, is_create), count(&actions, is_remove));
}

#[test]
fn nonzero_exit_is_not_a_failure() {
    let mut job = Job::new("j".to_string(), Language::Python, "x".to_string());
    let actions = drive(
        &mut job,
        vec![
            JobEvent::Begin,
            JobEvent::ImageChecked { present: true },
            created(),
            JobEvent::Started { result: Ok(()) },
            JobEvent::Exited { code: Some(1) },
            JobEvent::LogChunk { bytes: b"Traceback\n".to_vec() },
            JobEvent::LogsEnd,
            JobEvent::Removed { result: Ok(()) },
            JobEvent::Uploaded { result: Ok(()) },
        ],
    );
    assert!(matches!(&actions[8], JobAction::Finish { result: Ok(_) }));
    assert_eq!(count(&actions, is_create), count(&actions, is_remove));
}

#[test]
fn no_output_skips_the_upload() {
    let mut job = Job::new("j".to_string(), Language::Python, "pass".to_string());
    let actions = drive(
        &mut job,
        vec![
            JobEvent::Begin,
            JobEvent::ImageChecked { present: true },
            created(),
            JobEvent::Started { result: Ok(()) },
            JobEvent::Exited { code: Some(0) },
            JobEvent::LogsEnd,
            JobEvent::Removed { result: Ok(()) },
        ],
    );
    match &actions[6] {
        JobAction::Finish { result: Ok(id) } => assert_eq!(id, "j"),
        _ => panic!("expected success without upload"),
    }
}

#[test]
fn upload_failure_is_the_jobs_failure() {
    let mut job = Job::new("j".to_string(), Language::Python, "x".to_string());
    drive(
        &mut job,
        vec![
            JobEvent::Begin,
            JobEvent::ImageChecked { present: true },
            created(),
            JobEvent::Started { result: Ok(()) },
            JobEvent::Exited { code: Some(0) },
            JobEvent::LogChunk { bytes: b"out\n".to_vec() },
            JobEvent::LogsEnd,
            JobEvent::Removed { result: Ok(()) },
        ],
    );
    match job.step(JobEvent::Uploaded { result: Err("503".to_string()) }) {
        JobAction::Finish { result: Err(e) } => {
            assert!(matches!(e, JobError::Upload(_)));
            assert_eq!(e.message(), "Trace upload failed: 503");
        }
        _ => panic!("expected the upload failure"),
    }
}

#[test]
fn present_image_is_checked_once_and_not_built() {
    for _ in 0..2 {
        let mut job = Job::new("j".to_string(), Language::Python, "x".to_string());
        let actions = drive(
            &mut job,
            vec![JobEvent::Begin, JobEvent::ImageChecked { present: true }],
        );
        assert_eq!(count(&actions, is_inspect), 1);
        assert_eq!(count(&actions, is_build), 0);
    }
}

#[test]
fn missing_image_is_built_first() {
    let mut job = Job::new("j".to_string(), Language::Cpp, "x".to_string());
    let actions = drive(
        &mut job,
        vec![
            JobEvent::Begin,
            JobEvent::ImageChecked { present: false },
            JobEvent::ImageRechecked { present: false },
            JobEvent::ImageBuilt { result: Ok(()) },
        ],
    );
    assert!(matches!(actions[1], JobAction::RecheckImage { language: Language::Cpp }));
    assert!(matches!(actions[2], JobAction::BuildImage { language: Language::Cpp }));
    assert!(matches!(actions[3], JobAction::CreateContainer { .. }));
}

#[test]
fn image_built_meanwhile_is_not_built_again() {
    let mut job = Job::new("j".to_string(), Language::Python, "x".to_string());
    let actions = drive(
        &mut job,
        vec![
            JobEvent::Begin,
            JobEvent::ImageChecked { present: false },
            JobEvent::ImageRechecked { present: true },
        ],
    );
    assert_eq!(count(&actions, is_build), 0);
    assert!(matches!(actions[2], JobAction::CreateContainer { .. }));
}

#[test]
fn failed_build_ends_the_job() {
    let mut job = Job::new("j".to_string(), Language::Cpp, "x".to_string());
    let actions = drive(
        &mut job,
        vec![
            JobEvent::Begin,
            JobEvent::ImageChecked { present: false },
            JobEvent::ImageRechecked { present: false },
            JobEvent::ImageBuilt { result: Err("Build failed: step 2".to_string()) },
        ],
    );
    match &actions[3] {
        JobAction::Finish { result: Err(e) } => assert_eq!(e.message(), "Build failed: step 2"),
        _ => panic!("expected the build failure"),
    }
    assert_eq!(count(&actions, is_create), 0);
}

#[test]
fn same_answers_give_the_same_trace() {
    let run = |id: &str| {
        let mut job = Job::new(id.to_string(), Language::Python, "print(2+2)".to_string());
        let actions = drive(
            &mut job,
            vec![
                JobEvent::Begin,
                JobEvent::ImageChecked { present: true },
                created(),
                JobEvent::Started { result: Ok(()) },
                JobEvent::Exited { code: Some(0) },
                JobEvent::LogChunk { bytes: b"4\n".to_vec() },
                JobEvent::LogsEnd,
                JobEvent::Removed { result: Ok(()) },
            ],
        );
        match actions.into_iter().last() {
            Some(JobAction::UploadTrace { body, .. }) => body,
            _ => panic!("expected an upload"),
        }
    };
    let a = run("same");
    let b = run("same");
    assert_eq!(a, b);
    assert!(a.contains("{\"type\":\"Stdout\",\"content\":\"4\"}"));
}

#[test]
fn out_of_turn_events_are_ignored() {
    let mut job = Job::new("j".to_string(), Language::Python, "x".to_string());
    assert!(matches!(job.step(JobEvent::LogsEnd), JobAction::Ignore));
    assert_eq!(job.phase(), Phase::Idle);
    assert_eq!(job.id(), "j");
}
