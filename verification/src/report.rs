//! The persisted job row and the status reporter that owns it.
//!
//! Every stage transition of a job goes through `StatusReporter::update`,
//! which rewrites the row's stage code and status text. The reporter keeps
//! the job's full observable stage history as ghost state and only admits
//! transitions the stage machine allows, so the sequence of rows any
//! observer sees is always a forward march through the ok-stages with at
//! most one terminal failure.
//!
//! Persisting the row and broadcasting the persisted result are the
//! storage and fan-out collaborators' work; they receive the row after
//! each update.

use vstd::prelude::*;

use crate::stage::Stage;
use crate::stage::stage_code;
use crate::stage::stage_step_allowed;
use crate::stage::valid_stage_history;

verus! {

/// The row the pipeline writes for a job: identity, time bounds, stage
/// code and status text.
pub struct RecordingUpdate {
    pub user_id: Option<i32>,
    pub uuid: String,
    pub rec_start: i64,
    pub rec_end: i64,
    pub status: String,
    pub short_status: String,
    pub stage: i32,
    pub channel: String,
}

/// The durable representation the storage collaborator hands back after a
/// write, with its assigned row identity.
pub struct Recording {
    pub id: i32,
    pub user_id: Option<i32>,
    pub uuid: String,
    pub rec_start: i64,
    pub rec_end: i64,
    pub status: String,
    pub short_status: String,
    pub stage: i32,
    pub channel: String,
}

/// The short machine-readable status a stage is summarized as.
pub open spec fn short_status_text(s: Stage) -> Seq<char> {
    match s {
        Stage::WaitingQueue => "waiting"@,
        Stage::Initializing => "initializing"@,
        Stage::Downloading => "downloading"@,
        Stage::Combining => "combining"@,
        Stage::Encoding => "encoding"@,
        Stage::Uploading => "uploading"@,
        Stage::Complete => "complete"@,
        Stage::FailedNondescript => "failed"@,
        Stage::DownloadingFailed => "download-failed"@,
        Stage::CombiningFailed => "combine-failed"@,
        Stage::EncodingFailed => "encode-failed"@,
        Stage::UploadingFailed => "upload-failed"@,
    }
}

/// The short status of a stage, as a string.
pub fn short_status_str(stage: Stage) -> (s: &'static str)
    ensures
        s@ == short_status_text(stage),
{
    match stage {
        Stage::WaitingQueue => "waiting",
        Stage::Initializing => "initializing",
        Stage::Downloading => "downloading",
        Stage::Combining => "combining",
        Stage::Encoding => "encoding",
        Stage::Uploading => "uploading",
        Stage::Complete => "complete",
        Stage::FailedNondescript => "failed",
        Stage::DownloadingFailed => "download-failed",
        Stage::CombiningFailed => "combine-failed",
        Stage::EncodingFailed => "encode-failed",
        Stage::UploadingFailed => "upload-failed",
    }
}

/// Owner of one job's row and stage history.
pub struct StatusReporter {
    pub recording_row: RecordingUpdate,
    pub history: Ghost<Seq<Stage>>,
}

impl StatusReporter {
    /// The stage the job is currently in.
    pub open spec fn current_stage(&self) -> Stage {
        self.history@.last()
    }

    /// The history is a valid walk of the stage machine and the row
    /// carries the current stage's code and short status.
    pub open spec fn wf(&self) -> bool {
        &&& self.history@.len() >= 1
        &&& valid_stage_history(self.history@)
        &&& self.recording_row.stage == stage_code(self.current_stage())
        &&& self.recording_row.short_status@ == short_status_text(self.current_stage())
    }

    /// A reporter for a fresh job: the row starts pending in the queue.
    pub fn new(uuid: String, channel: String, rec_start: i64, rec_end: i64) -> (r: StatusReporter)
        ensures
            r.wf(),
            r.history@ =~= seq![Stage::WaitingQueue],
            r.recording_row.uuid == uuid,
            r.recording_row.channel == channel,
            r.recording_row.rec_start == rec_start,
            r.recording_row.rec_end == rec_end,
            r.recording_row.user_id is None,
            r.recording_row.status@ == "Pending"@,
            r.recording_row.stage == stage_code(Stage::WaitingQueue),
    {
        let ghost start_history: Seq<Stage> = seq![Stage::WaitingQueue];
        StatusReporter {
            recording_row: RecordingUpdate {
                user_id: None,
                uuid,
                rec_start,
                rec_end,
                status: "Pending".to_owned(),
                short_status: short_status_str(Stage::WaitingQueue).to_owned(),
                stage: Stage::WaitingQueue.to_code(),
                channel,
            },
            history: Ghost(start_history),
        }
    }

    /// Record a stage transition: set the row's status text, short status
    /// and stage code. The caller persists and broadcasts the row before
    /// the next update, which keeps every observer's view ordered.
    pub fn update(&mut self, status: String, stage: Stage)
        requires
            old(self).wf(),
            stage_step_allowed(old(self).current_stage(), stage),
        ensures
            final(self).wf(),
            final(self).history@ == old(self).history@.push(stage),
            final(self).current_stage() == stage,
            final(self).recording_row.status == status,
            final(self).recording_row.stage == stage_code(stage),
            final(self).recording_row.short_status@ == short_status_text(stage),
            final(self).recording_row.uuid == old(self).recording_row.uuid,
            final(self).recording_row.channel == old(self).recording_row.channel,
            final(self).recording_row.rec_start == old(self).recording_row.rec_start,
            final(self).recording_row.rec_end == old(self).recording_row.rec_end,
            final(self).recording_row.user_id == old(self).recording_row.user_id,
    {
        self.recording_row.stage = stage.to_code();
        self.recording_row.status = status;
        self.recording_row.short_status = short_status_str(stage).to_owned();
        proof {
            let h = self.history@.push(stage);
            assert forall|i: int| 0 <= i < h.len() - 1 implies stage_step_allowed(
                h[i],
                #[trigger] h[i + 1],
            ) by {
                if i < h.len() - 2 {
                    assert(stage_step_allowed(old(self).history@[i], old(self).history@[i + 1]));
                }
            }
        }
        self.history = Ghost(self.history@.push(stage));
    }
}

} // verus!
