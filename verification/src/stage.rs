//! The per-job lifecycle stage and its transition discipline.
//!
//! A job moves monotonically forward through the ok-stages
//! `WaitingQueue → Initializing → Downloading → Combining → Encoding →
//! Uploading → Complete`; any ok-stage except `Complete` may instead step
//! to its failed counterpart, which is terminal. Stages are persisted as
//! small integer codes through an explicit two-way mapping — a persisted
//! code outside the table is rejected rather than reinterpreted.

use vstd::prelude::*;

verus! {

/// Clip progress stage.
#[derive(Clone, Copy, Debug, PartialEq, Eq, Structural)]
pub enum Stage {
    WaitingQueue,
    Initializing,
    Downloading,
    Combining,
    Encoding,
    Uploading,
    Complete,
    FailedNondescript,
    DownloadingFailed,
    CombiningFailed,
    EncodingFailed,
    UploadingFailed,
}

/// The integer code under which a stage is persisted.
pub open spec fn stage_code(s: Stage) -> i32 {
    match s {
        Stage::WaitingQueue => 0,
        Stage::Initializing => 1,
        Stage::Downloading => 2,
        Stage::Combining => 3,
        Stage::Encoding => 4,
        Stage::Uploading => 5,
        Stage::Complete => 6,
        Stage::FailedNondescript => 10,
        Stage::DownloadingFailed => 11,
        Stage::CombiningFailed => 12,
        Stage::EncodingFailed => 13,
        Stage::UploadingFailed => 14,
    }
}

/// Whether a stage is one of the ok-stages.
pub open spec fn is_ok_stage(s: Stage) -> bool {
    match s {
        Stage::WaitingQueue
        | Stage::Initializing
        | Stage::Downloading
        | Stage::Combining
        | Stage::Encoding
        | Stage::Uploading
        | Stage::Complete => true,
        _ => false,
    }
}

/// Whether a stage is one of the failed-stages.
pub open spec fn is_failed_stage(s: Stage) -> bool {
    !is_ok_stage(s)
}

/// Position of an ok-stage in the declared forward order.
pub open spec fn stage_rank(s: Stage) -> int
    recommends
        is_ok_stage(s),
{
    stage_code(s) as int
}

/// The failed counterpart of a stage: stages with no specific failed-state
/// fall back to `FailedNondescript`.
pub open spec fn failed_stage_of(s: Stage) -> Stage {
    match s {
        Stage::Downloading => Stage::DownloadingFailed,
        Stage::Combining => Stage::CombiningFailed,
        Stage::Encoding => Stage::EncodingFailed,
        Stage::Uploading => Stage::UploadingFailed,
        _ => Stage::FailedNondescript,
    }
}

/// One observable stage transition the pipeline may make: forward (or in
/// place) through the ok-stages, or from an ok-stage other than `Complete`
/// to its own failed counterpart. Failed stages are terminal.
pub open spec fn stage_step_allowed(from: Stage, to: Stage) -> bool {
    &&& is_ok_stage(from)
    &&& if is_ok_stage(to) {
        stage_rank(from) <= stage_rank(to)
    } else {
        from !is Complete && to == failed_stage_of(from)
    }
}

impl Stage {
    /// The integer code under which this stage is persisted.
    pub fn to_code(self) -> (code: i32)
        ensures
            code == stage_code(self),
    {
        match self {
            Stage::WaitingQueue => 0,
            Stage::Initializing => 1,
            Stage::Downloading => 2,
            Stage::Combining => 3,
            Stage::Encoding => 4,
            Stage::Uploading => 5,
            Stage::Complete => 6,
            Stage::FailedNondescript => 10,
            Stage::DownloadingFailed => 11,
            Stage::CombiningFailed => 12,
            Stage::EncodingFailed => 13,
            Stage::UploadingFailed => 14,
        }
    }

    /// The stage a persisted code stands for; `None` for a code outside the
    /// table, so that an out-of-range persisted value fails loudly instead
    /// of being reinterpreted.
    pub fn from_code(code: i32) -> (stage: Option<Stage>)
        ensures
            stage matches Some(s) ==> stage_code(s) == code,
            stage is None ==> forall|s: Stage| stage_code(s) != code,
    {
        match code {
            0 => Some(Stage::WaitingQueue),
            1 => Some(Stage::Initializing),
            2 => Some(Stage::Downloading),
            3 => Some(Stage::Combining),
            4 => Some(Stage::Encoding),
            5 => Some(Stage::Uploading),
            6 => Some(Stage::Complete),
            10 => Some(Stage::FailedNondescript),
            11 => Some(Stage::DownloadingFailed),
            12 => Some(Stage::CombiningFailed),
            13 => Some(Stage::EncodingFailed),
            14 => Some(Stage::UploadingFailed),
            _ => None,
        }
    }

    /// The failed-stage a failure in this stage is reported as.
    pub fn error_variant(self) -> (failed: Self)
        ensures
            failed == failed_stage_of(self),
    {
        match self {
            Self::Downloading => Self::DownloadingFailed,
            Self::Combining => Self::CombiningFailed,
            Self::Encoding => Self::EncodingFailed,
            Self::Uploading => Self::UploadingFailed,
            _ => Self::FailedNondescript,
        }
    }

    /// Whether this stage is an ok-stage (executable mirror of
    /// `is_ok_stage`).
    pub fn is_ok(self) -> (ok: bool)
        ensures
            ok == is_ok_stage(self),
    {
        self.to_code() <= 6
    }
}

/// A sequence of observed stages is valid when every adjacent pair is an
/// allowed transition.
pub open spec fn valid_stage_history(h: Seq<Stage>) -> bool {
    forall|i: int| 0 <= i < h.len() - 1 ==> stage_step_allowed(h[i], #[trigger] h[i + 1])
}

/// Stage transitions observed by any observer form a subsequence of the
/// declared ok-stage order, optionally terminated by exactly one failed
/// stage; no ok-stage is ever revisited once left.
///
/// Concretely, in any valid history: wherever a failed stage appears it is
/// the last entry, and between any earlier and later ok entry the rank
/// never decreases.
pub proof fn lemma_observed_stages_ordered(h: Seq<Stage>, i: int, j: int)
    requires
        valid_stage_history(h),
        0 <= i <= j < h.len(),
    ensures
        is_failed_stage(h[i]) ==> i == h.len() - 1,
        i < j ==> is_ok_stage(h[i]),
        is_ok_stage(h[i]) && is_ok_stage(h[j]) ==> stage_rank(h[i]) <= stage_rank(h[j]),
        is_ok_stage(h[i]) && h[i] is Complete && i < j ==> h[j] is Complete,
    decreases j - i,
{
    if i < j {
        assert(stage_step_allowed(h[i], h[i + 1]));
        lemma_observed_stages_ordered(h, i + 1, j);
        if is_ok_stage(h[i]) && is_ok_stage(h[j]) {
            if is_ok_stage(h[i + 1]) {
            } else {
                assert(i + 1 == h.len() - 1);
                assert(j == i + 1);
                assert(is_ok_stage(h[j]) && is_failed_stage(h[i + 1]));
            }
        }
    } else {
        if is_failed_stage(h[i]) && i < h.len() - 1 {
            assert(stage_step_allowed(h[i], h[i + 1]));
        }
    }
}

} // verus!
