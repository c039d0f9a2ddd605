//! The backup pipeline: one run per scheduler tick, a strict sequence
//! of stages with no skipping on success.  Anything aborting before the
//! upload fails the run; from the upload on, nothing can: a failed
//! prune, local cleanup or notification must never undo the fact that
//! the new backup is safely stored.
//!
//! The external work of each stage (the dump process, the compressor,
//! the storage transfer, the notifier) happens outside; the run state
//! here records each stage's outcome and decides what it means.

use vstd::prelude::*;
use vstd::string::*;

verus! {

/// The stages of one pipeline run, in order.
#[derive(Clone, Copy, PartialEq, Eq, Structural, Debug)]
pub enum Stage {
    Start,
    Named,
    DumpedCompressed,
    Uploaded,
    Pruned,
    LocalCleanedUp,
    Notified,
    Done,
}

/// The failures that abort a run.
#[derive(Clone, Copy, PartialEq, Eq, Structural, Debug)]
pub enum StageFailure {
    Dump,
    Compression,
    Upload,
}

/// What a finished run reports to the scheduler.
#[derive(Clone, Copy, PartialEq, Eq, Structural, Debug)]
pub enum RunOutcome {
    Succeeded,
    Failed(StageFailure),
}

/// How the dump-and-compress stage went.
#[derive(Clone, Copy, PartialEq, Eq, Structural, Debug)]
pub enum DumpOutcome {
    Dumped,
    DumpFailed,
    CompressionFailed,
}

/// One artifact whose deletion failed during the prune stage, with the
/// error it failed with.
pub struct DeletionFailure {
    pub name: String,
    pub error: String,
}

/// The state of one pipeline run.
pub struct PipelineRun {
    /// How far the run has come.
    pub stage: Stage,
    /// The artifact name computed at the start, once there is one.
    pub artifact_name: Option<String>,
    /// Whether a local staging file exists and may need cleanup.
    pub staging_file_present: bool,
    /// The per-artifact deletion failures of the prune stage.
    pub failed_deletions: Vec<DeletionFailure>,
    /// The failure that aborted the run, if one did.
    pub aborted: Option<StageFailure>,
}

impl PipelineRun {
    /// What this run reports: failed exactly when a stage aborted it.
    pub open spec fn spec_outcome(self) -> RunOutcome {
        match self.aborted {
            Some(f) => RunOutcome::Failed(f),
            None => RunOutcome::Succeeded,
        }
    }

    /// A fresh run: nothing named, no staging file, no failures.
    pub fn new() -> (r: Self)
        ensures
            r.stage == Stage::Start,
            r.artifact_name is None,
            !r.staging_file_present,
            r.failed_deletions@.len() == 0,
            r.aborted is None,
    {
        PipelineRun {
            stage: Stage::Start,
            artifact_name: None,
            staging_file_present: false,
            failed_deletions: Vec::new(),
            aborted: None,
        }
    }

    /// The artifact name was computed from the current time.  This
    /// transition cannot fail.
    pub fn name_computed(&mut self, name: String)
        requires
            old(self).stage == Stage::Start,
            old(self).aborted is None,
        ensures
            final(self).stage == Stage::Named,
            final(self).artifact_name == Some(name),
            final(self).aborted is None,
            final(self).staging_file_present == old(self).staging_file_present,
            final(self).failed_deletions == old(self).failed_deletions,
    {
        self.stage = Stage::Named;
        self.artifact_name = Some(name);
    }

    /// The dump was streamed through the compressor into the local
    /// staging file.  A dump or compression failure aborts the run;
    /// `staging_file_created` records whether a (possibly incomplete)
    /// staging file was left on disk either way.
    pub fn dump_done(&mut self, outcome: DumpOutcome, staging_file_created: bool)
        requires
            old(self).stage == Stage::Named,
            old(self).aborted is None,
        ensures
            final(self).staging_file_present == staging_file_created,
            outcome == DumpOutcome::Dumped ==> final(self).stage == Stage::DumpedCompressed
                && final(self).aborted is None,
            outcome == DumpOutcome::DumpFailed ==> final(self).aborted == Some(StageFailure::Dump),
            outcome == DumpOutcome::CompressionFailed ==> final(self).aborted == Some(
                StageFailure::Compression,
            ),
            final(self).artifact_name == old(self).artifact_name,
            final(self).failed_deletions == old(self).failed_deletions,
    {
        self.staging_file_present = staging_file_created;
        match outcome {
            DumpOutcome::Dumped => {
                self.stage = Stage::DumpedCompressed;
            },
            DumpOutcome::DumpFailed => {
                self.aborted = Some(StageFailure::Dump);
            },
            DumpOutcome::CompressionFailed => {
                self.aborted = Some(StageFailure::Compression);
            },
        }
    }

    /// The staging file was offered to the storage client.  An upload
    /// failure aborts the run and the staging file is kept, so an
    /// operator can recover it without re-running the dump.
    pub fn upload_done(&mut self, ok: bool)
        requires
            old(self).stage == Stage::DumpedCompressed,
            old(self).aborted is None,
        ensures
            final(self).staging_file_present == old(self).staging_file_present,
            ok ==> final(self).stage == Stage::Uploaded && final(self).aborted is None,
            !ok ==> final(self).aborted == Some(StageFailure::Upload),
            final(self).artifact_name == old(self).artifact_name,
            final(self).failed_deletions == old(self).failed_deletions,
    {
        if ok {
            self.stage = Stage::Uploaded;
        } else {
            self.aborted = Some(StageFailure::Upload);
        }
    }

    /// The rotation pass ran; each failed deletion is recorded as an
    /// (artifact, error) pair.  Deletion failures never abort the run:
    /// unwanted old artifacts merely linger for another cycle.
    pub fn prune_done(&mut self, failures: Vec<DeletionFailure>)
        requires
            old(self).stage == Stage::Uploaded,
            old(self).aborted is None,
        ensures
            final(self).stage == Stage::Pruned,
            final(self).aborted is None,
            final(self).failed_deletions == failures,
            final(self).staging_file_present == old(self).staging_file_present,
            final(self).artifact_name == old(self).artifact_name,
    {
        self.stage = Stage::Pruned;
        self.failed_deletions = failures;
    }

    /// The local staging file was removed, or removing it failed.  A
    /// cleanup failure is logged by the caller and never fails the run.
    pub fn cleanup_done(&mut self, removed: bool)
        requires
            old(self).stage == Stage::Pruned,
            old(self).aborted is None,
        ensures
            final(self).stage == Stage::LocalCleanedUp,
            final(self).aborted is None,
            removed ==> !final(self).staging_file_present,
            !removed ==> final(self).staging_file_present == old(self).staging_file_present,
            final(self).artifact_name == old(self).artifact_name,
            final(self).failed_deletions == old(self).failed_deletions,
    {
        self.stage = Stage::LocalCleanedUp;
        if removed {
            self.staging_file_present = false;
        }
    }

    /// The notifier was invoked, or skipped because none is configured.
    /// A notification failure is logged by the caller and never turns a
    /// successful run into a failure.
    pub fn notify_done(&mut self, _delivered: bool)
        requires
            old(self).stage == Stage::LocalCleanedUp,
            old(self).aborted is None,
        ensures
            final(self).stage == Stage::Notified,
            final(self).aborted is None,
            final(self).staging_file_present == old(self).staging_file_present,
            final(self).artifact_name == old(self).artifact_name,
            final(self).failed_deletions == old(self).failed_deletions,
    {
        self.stage = Stage::Notified;
    }

    /// The run is complete.
    pub fn finish(&mut self)
        requires
            old(self).stage == Stage::Notified,
            old(self).aborted is None,
        ensures
            final(self).stage == Stage::Done,
            final(self).aborted is None,
            final(self).spec_outcome() == RunOutcome::Succeeded,
            final(self).staging_file_present == old(self).staging_file_present,
            final(self).artifact_name == old(self).artifact_name,
            final(self).failed_deletions == old(self).failed_deletions,
    {
        self.stage = Stage::Done;
    }

    /// What this run reports to the scheduler.
    pub fn outcome(&self) -> (r: RunOutcome)
        ensures
            r == self.spec_outcome(),
    {
        match self.aborted {
            Some(f) => RunOutcome::Failed(f),
            None => RunOutcome::Succeeded,
        }
    }
}

/// The message the notifier posts for a stored artifact.
pub fn success_message(artifact_name: &str) -> (r: String)
    ensures
        r@ == "database backed up: "@ + artifact_name@,
{
    let mut s = String::new();
    s.append("database backed up: ");
    s.append(artifact_name);
    assert(s@ =~= "database backed up: "@ + artifact_name@);
    s
}

} // verus!
