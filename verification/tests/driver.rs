use shdrr::compile::{binary_of_outcome, CompileOutcome};
use shdrr::kind::ShaderKind;
use shdrr::pipeline::{event_target, job_next, JobEvent, JobStage, RawEvent};

#[test]
fn creations_and_writes_dispatch_on_their_path() {
    assert_eq!(
        event_target(RawEvent::Created("/r/a.fs".to_string())),
        Some("/r/a.fs".to_string())
    );
    assert_eq!(
        event_target(RawEvent::Modified("/r/b.vs".to_string())),
        Some("/r/b.vs".to_string())
    );
}

#[test]
fn rename_dispatches_on_the_destination() {
    assert_eq!(
        event_target(RawEvent::Renamed(
            "/r/old.fs".to_string(),
            "/r/new.fs".to_string()
        )),
        Some("/r/new.fs".to_string())
    );
}

#[test]
fn removals_and_metadata_do_not_dispatch() {
    assert_eq!(event_target(RawEvent::Removed("/r/a.fs".to_string())), None);
    assert_eq!(event_target(RawEvent::Metadata("/r/a.fs".to_string())), None);
}

#[test]
fn successful_job_walks_every_stage() {
    let mut stage = JobStage::Received;
    stage = job_next(stage, JobEvent::Classify(ShaderKind::Fragment));
    assert_eq!(stage, JobStage::Classified);
    stage = job_next(stage, JobEvent::Load(true));
    assert_eq!(stage, JobStage::Loaded);
    stage = job_next(stage, JobEvent::Compile(true));
    assert_eq!(stage, JobStage::Compiled);
    stage = job_next(stage, JobEvent::MapPath);
    assert_eq!(stage, JobStage::PathResolved);
    stage = job_next(stage, JobEvent::Write(true));
    assert_eq!(stage, JobStage::Done);
}

#[test]
fn unknown_kind_ends_the_job_before_the_adapter() {
    assert_eq!(
        job_next(JobStage::Received, JobEvent::Classify(ShaderKind::Unknown)),
        JobStage::Done
    );
}

#[test]
fn unreadable_source_ends_the_job() {
    assert_eq!(
        job_next(JobStage::Classified, JobEvent::Load(false)),
        JobStage::Done
    );
}

#[test]
fn compile_failure_ends_the_job_before_any_write() {
    assert_eq!(
        job_next(JobStage::Loaded, JobEvent::Compile(false)),
        JobStage::Done
    );
}

#[test]
fn diagnostic_outcome_yields_no_binary() {
    let out = binary_of_outcome(CompileOutcome::Diagnostic("syntax error".to_string()));
    assert_eq!(out, None);
    let ok = binary_of_outcome(CompileOutcome::Binary(vec![3, 2, 35, 7]));
    assert_eq!(ok, Some(vec![3, 2, 35, 7]));
}
