//! The pipeline driver's decisions: which raw filesystem events dispatch a
//! compile job and on which path, and how one job moves through its stages.
//! The driver loop itself performs the blocking receive and the file I/O
//! outside the crate and feeds each step's outcome back in.

use vstd::prelude::*;
use crate::kind::ShaderKind;

verus! {

/// A raw filesystem change notification, as the watch subsystem reports
/// it: a creation, a content write, a rename (with source and destination),
/// a removal, or a metadata-only change.
pub enum RawEvent {
    Created(String),
    Modified(String),
    Renamed(String, String),
    Removed(String),
    Metadata(String),
}

/// The path a raw event dispatches a compile job on, if any. Creations
/// and writes dispatch on their path; a rename is treated as if the
/// destination had been modified, the old path is ignored; removals and
/// metadata-only changes never trigger a compile.
pub open spec fn spec_event_target(e: &RawEvent) -> Option<Seq<char>> {
    match e {
        RawEvent::Created(p) => Some(p@),
        RawEvent::Modified(p) => Some(p@),
        RawEvent::Renamed(_, to) => Some(to@),
        RawEvent::Removed(_) => None,
        RawEvent::Metadata(_) => None,
    }
}

/// Decides whether `e` dispatches a compile job, and on which path.
pub fn event_target(e: RawEvent) -> (r: Option<String>)
    ensures
        match r {
            Some(p) => spec_event_target(&e) == Some(p@),
            None => spec_event_target(&e) is None,
        },
{
    match e {
        RawEvent::Created(p) => Some(p),
        RawEvent::Modified(p) => Some(p),
        RawEvent::Renamed(_, to) => Some(to),
        RawEvent::Removed(_) => None,
        RawEvent::Metadata(_) => None,
    }
}

/// Where one compile job stands. A job is born `Received` and ends `Done`;
/// the fully successful path runs through every stage in order, and every
/// failure leaves the job `Done` early without affecting the driver loop.
#[derive(Clone, Copy, Debug, PartialEq, Eq, Structural)]
pub enum JobStage {
    Received,
    Classified,
    Loaded,
    Compiled,
    PathResolved,
    Done,
}

/// What the current stage of a job produced: the resolved stage, whether
/// the source could be read, whether the compiler succeeded, that the
/// output path was computed, or whether the write went through.
#[derive(Clone, Copy, Debug, PartialEq, Eq, Structural)]
pub enum JobEvent {
    Classify(ShaderKind),
    Load(bool),
    Compile(bool),
    MapPath,
    Write(bool),
}

/// The stage a job moves to when `ev` happens at `stage`: the successful
/// outcome of each stage advances the job one step, every failure — an
/// unknown shader kind, an unreadable source, a compiler diagnostic, a
/// failed write — ends it at `Done`, as does an event that does not belong
/// to the stage.
pub open spec fn spec_job_next(stage: JobStage, ev: JobEvent) -> JobStage {
    match (stage, ev) {
        (JobStage::Received, JobEvent::Classify(k)) => if k == ShaderKind::Unknown {
            JobStage::Done
        } else {
            JobStage::Classified
        },
        (JobStage::Classified, JobEvent::Load(ok)) => if ok {
            JobStage::Loaded
        } else {
            JobStage::Done
        },
        (JobStage::Loaded, JobEvent::Compile(ok)) => if ok {
            JobStage::Compiled
        } else {
            JobStage::Done
        },
        (JobStage::Compiled, JobEvent::MapPath) => JobStage::PathResolved,
        (JobStage::PathResolved, JobEvent::Write(_)) => JobStage::Done,
        _ => JobStage::Done,
    }
}

/// Compilation and writing happen only on the fully successful path: the
/// adapter's stage is reached only by classifying a known shader kind, so
/// an unknown kind never reaches it; the write stage is reached only
/// through a successful compile, so a compile failure never creates or
/// modifies a file.
pub proof fn lemma_only_success_advances(stage: JobStage, ev: JobEvent)
    ensures
        spec_job_next(stage, ev) == JobStage::Classified ==> stage == JobStage::Received && (
        ev matches JobEvent::Classify(k) && k != ShaderKind::Unknown),
        spec_job_next(stage, ev) == JobStage::Loaded ==> stage == JobStage::Classified && ev
            == JobEvent::Load(true),
        spec_job_next(stage, ev) == JobStage::Compiled ==> stage == JobStage::Loaded && ev
            == JobEvent::Compile(true),
        spec_job_next(stage, ev) == JobStage::PathResolved ==> stage == JobStage::Compiled
            && ev == JobEvent::MapPath,
{
}

/// Advances a job by one stage outcome.
pub fn job_next(stage: JobStage, ev: JobEvent) -> (r: JobStage)
    ensures
        r == spec_job_next(stage, ev),
{
    match (stage, ev) {
        (JobStage::Received, JobEvent::Classify(k)) => if k == ShaderKind::Unknown {
            JobStage::Done
        } else {
            JobStage::Classified
        },
        (JobStage::Classified, JobEvent::Load(ok)) => if ok {
            JobStage::Loaded
        } else {
            JobStage::Done
        },
        (JobStage::Loaded, JobEvent::Compile(ok)) => if ok {
            JobStage::Compiled
        } else {
            JobStage::Done
        },
        (JobStage::Compiled, JobEvent::MapPath) => JobStage::PathResolved,
        (JobStage::PathResolved, JobEvent::Write(_)) => JobStage::Done,
        _ => JobStage::Done,
    }
}

} // verus!
