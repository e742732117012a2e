//! One clip job's orchestration state.
//!
//! A job is created from the request parameters, resolves its channel,
//! waits for admission, then walks Download → Combine/Encode → Upload to
//! completion, reporting through its `StatusReporter` at every step. Any
//! stage failure maps to that stage's failed-state and yields a cleanup
//! directive: remove the working directory exactly when one was created,
//! advance the queue exactly when the job entered it.
//!
//! The boundary performs each stage's I/O between these calls; the call
//! order is enforced by the current stage each method requires.

use vstd::prelude::*;

use crate::encoder::expected_duration_ms;
use crate::encoder::expected_duration_ms_spec;
use crate::encoder::total_duration_ms;
use crate::error::PipelineError;
use crate::error::error_text;
use crate::report::StatusReporter;
use crate::segment::calculate_segment_idx;
use crate::segment::lemma_segment_index_bound;
use crate::segment::lemma_segment_index_monotonic;
use crate::segment::segment_index_spec;
use crate::stage::Stage;
use crate::stage::failed_stage_of;
use crate::stage::is_ok_stage;
use crate::text::dec_rep;
use crate::text::percent_rep;
use crate::text::percent_to_string;
use crate::text::u64_to_string;
use crate::text::usize_to_string;

verus! {

/// Parameters from the request.
pub struct ClipParameters {
    pub start_timestamp: usize,
    pub end_timestamp: usize,
    pub channel: String,
    pub encode: bool,
}

/// What must be undone when a job leaves the pipeline.
#[derive(Clone, Copy, Debug, PartialEq, Eq, Structural)]
pub struct CleanupDirective {
    /// The job's working directory was created and must be removed.
    pub remove_working_directory: bool,
    /// The job entered the queue and must advance it.
    pub advance_queue: bool,
}

/// The status text reported while waiting at a queue position.
pub open spec fn queue_status_text(position: nat) -> Seq<char> {
    "Queue position: "@ + dec_rep(position)
}

/// The status text reported after one segment finished downloading.
pub open spec fn download_status_text(count: nat, total: nat, finished: nat, secs: nat) -> Seq<
    char,
> {
    "Downloaded "@ + dec_rep(count) + "/"@ + dec_rep(total)
        + " total segments (last finished: "@ + dec_rep(finished) + "/"@ + dec_rep(total)
        + " in "@ + dec_rep(secs) + " sec)"@
}

/// The percentage of the encode done, in hundredths of a percent:
/// elapsed output time over total duration, clamped to representable
/// bounds.
pub open spec fn encode_hundredths(elapsed_ms: int, total_ms: int) -> int
    recommends
        total_ms > 0,
{
    let elapsed = if elapsed_ms < 0 {
        0
    } else {
        elapsed_ms
    };
    let hundredths = elapsed * 10000 / total_ms;
    if hundredths > u64::MAX {
        u64::MAX as int
    } else {
        hundredths
    }
}

/// The status text reported for one encode progress sample. When the
/// total duration is only the expected play length of the segment range,
/// the percentage is flagged as approximate.
pub open spec fn encode_status_text(elapsed_ms: int, total_ms: int, estimated: bool) -> Seq<
    char,
> {
    "Combining and encoding segments ("@ + (if estimated {
        "approx. "@
    } else {
        Seq::<char>::empty()
    }) + percent_rep(encode_hundredths(elapsed_ms, total_ms) as nat) + "%)"@
}

/// The orchestration state of one clip job.
pub struct ClipJob {
    pub reporter: StatusReporter,
    pub uuid: String,
    pub channel: String,
    pub encode: bool,
    pub first_segment_idx: usize,
    pub last_segment_idx: usize,
    pub url_prefix: Option<String>,
    pub enqueued: bool,
    pub directory_created: bool,
    pub segments_downloaded: usize,
    pub total_duration_ms: i64,
    pub duration_estimated: bool,
}

impl ClipJob {
    /// Number of media segments in the job's range.
    pub open spec fn segment_count(&self) -> int {
        self.last_segment_idx - self.first_segment_idx + 1
    }

    /// The stage the job is currently in.
    pub open spec fn current_stage(&self) -> Stage {
        self.reporter.current_stage()
    }

    /// The reporter is well-formed, the segment range is forward and
    /// representable, and no more segments are counted than exist.
    pub open spec fn wf(&self) -> bool {
        &&& self.reporter.wf()
        &&& self.first_segment_idx <= self.last_segment_idx
        &&& self.last_segment_idx < usize::MAX
        &&& self.segments_downloaded <= self.segment_count()
    }

    /// A fresh job from the request parameters: its row starts pending in
    /// the queue, and its segment range covers both time bounds.
    pub fn new(uuid: String, parameters: ClipParameters) -> (job: ClipJob)
        requires
            parameters.start_timestamp < parameters.end_timestamp,
            parameters.end_timestamp <= i64::MAX,
        ensures
            job.wf(),
            job.reporter.history@ =~= seq![Stage::WaitingQueue],
            job.reporter.recording_row.status@ == "Pending"@,
            job.reporter.recording_row.uuid == uuid,
            job.reporter.recording_row.channel == parameters.channel,
            job.reporter.recording_row.rec_start == parameters.start_timestamp as i64,
            job.reporter.recording_row.rec_end == parameters.end_timestamp as i64,
            job.uuid == uuid,
            job.channel == parameters.channel,
            job.encode == parameters.encode,
            job.first_segment_idx == segment_index_spec(parameters.start_timestamp as int),
            job.last_segment_idx == segment_index_spec(parameters.end_timestamp as int),
            job.url_prefix is None,
            !job.enqueued,
            !job.directory_created,
            job.segments_downloaded == 0,
            !job.duration_estimated,
    {
        let first_segment_idx = calculate_segment_idx(parameters.start_timestamp);
        let last_segment_idx = calculate_segment_idx(parameters.end_timestamp);
        proof {
            lemma_segment_index_monotonic(
                parameters.start_timestamp as int,
                parameters.end_timestamp as int,
            );
            lemma_segment_index_bound(parameters.end_timestamp as int);
        }
        let reporter = StatusReporter::new(
            uuid.clone(),
            parameters.channel.clone(),
            parameters.start_timestamp as i64,
            parameters.end_timestamp as i64,
        );
        ClipJob {
            reporter,
            uuid,
            channel: parameters.channel,
            encode: parameters.encode,
            first_segment_idx,
            last_segment_idx,
            url_prefix: None,
            enqueued: false,
            directory_created: false,
            segments_downloaded: 0,
            total_duration_ms: 0,
            duration_estimated: false,
        }
    }

    /// Resolve the job's channel against the source registry's answer.
    /// An unknown channel is an immediate configuration failure, before
    /// any directory is created or queue entry made.
    pub fn resolve_source(&mut self, url_prefix: Option<String>) -> (r: Result<
        (),
        PipelineError,
    >)
        requires
            old(self).wf(),
        ensures
            final(self).wf(),
            r is Ok <==> url_prefix is Some,
            r is Ok ==> final(self).url_prefix == url_prefix && (*final(self)) == (ClipJob {
                url_prefix: final(self).url_prefix,
                ..*old(self)
            }),
            r is Err ==> *final(self) == *old(self) && (r matches Err(e) && e is Configuration),
    {
        match url_prefix {
            Some(prefix) => {
                self.url_prefix = Some(prefix);
                Ok(())
            },
            None => Err(PipelineError::Configuration("failed to find channel".to_owned())),
        }
    }

    /// Note that the job entered the queue.
    pub fn mark_enqueued(&mut self)
        requires
            old(self).wf(),
        ensures
            final(self).wf(),
            (*final(self)) == (ClipJob { enqueued: true, ..*old(self) }),
    {
        self.enqueued = true;
    }

    /// Note that the working directory now exists.
    pub fn mark_directory_created(&mut self)
        requires
            old(self).wf(),
        ensures
            final(self).wf(),
            (*final(self)) == (ClipJob { directory_created: true, ..*old(self) }),
    {
        self.directory_created = true;
    }

    /// Report the queue position the job was just notified of.
    pub fn note_queue_position(&mut self, position: usize)
        requires
            old(self).wf(),
            old(self).current_stage() == Stage::WaitingQueue,
        ensures
            final(self).wf(),
            final(self).reporter.history@ == old(self).reporter.history@.push(
                Stage::WaitingQueue,
            ),
            final(self).reporter.recording_row.status@ == queue_status_text(position as nat),
            (*final(self)) == (ClipJob { reporter: final(self).reporter, ..*old(self) }),
    {
        let mut status = "Queue position: ".to_owned();
        let position_text = usize_to_string(position);
        status.append(position_text.as_str());
        self.reporter.update(status, Stage::WaitingQueue);
    }

    /// The job holds a processing slot: create its working directory.
    pub fn begin_initializing(&mut self)
        requires
            old(self).wf(),
            old(self).current_stage() == Stage::WaitingQueue,
        ensures
            final(self).wf(),
            final(self).reporter.history@ == old(self).reporter.history@.push(
                Stage::Initializing,
            ),
            final(self).reporter.recording_row.status@ == "Creating working directory"@,
            (*final(self)) == (ClipJob { reporter: final(self).reporter, ..*old(self) }),
    {
        self.reporter.update("Creating working directory".to_owned(), Stage::Initializing);
    }

    /// Start the download stage.
    pub fn begin_download(&mut self)
        requires
            old(self).wf(),
            old(self).current_stage() == Stage::Initializing,
        ensures
            final(self).wf(),
            final(self).reporter.history@ == old(self).reporter.history@.push(Stage::Downloading),
            final(self).reporter.recording_row.status@ == "Starting download"@,
            (*final(self)) == (ClipJob { reporter: final(self).reporter, ..*old(self) }),
    {
        self.reporter.update("Starting download".to_owned(), Stage::Downloading);
    }

    /// Report one finished segment download: `segment_idx` completed in
    /// `duration_secs` seconds.
    pub fn note_segment_downloaded(&mut self, segment_idx: usize, duration_secs: u64)
        requires
            old(self).wf(),
            old(self).current_stage() == Stage::Downloading,
            old(self).first_segment_idx <= segment_idx <= old(self).last_segment_idx,
            old(self).segments_downloaded < old(self).segment_count(),
        ensures
            final(self).wf(),
            final(self).segments_downloaded == old(self).segments_downloaded + 1,
            final(self).reporter.history@ == old(self).reporter.history@.push(Stage::Downloading),
            final(self).reporter.recording_row.status@ == download_status_text(
                (old(self).segments_downloaded + 1) as nat,
                old(self).segment_count() as nat,
                (segment_idx - old(self).first_segment_idx + 1) as nat,
                duration_secs as nat,
            ),
            (*final(self)) == (ClipJob {
                reporter: final(self).reporter,
                segments_downloaded: final(self).segments_downloaded,
                ..*old(self)
            }),
    {
        self.segments_downloaded = self.segments_downloaded + 1;
        let total = self.last_segment_idx - self.first_segment_idx + 1;
        let count_text = usize_to_string(self.segments_downloaded);
        let total_text = usize_to_string(total);
        let finished_text = usize_to_string(segment_idx - self.first_segment_idx + 1);
        let secs_text = u64_to_string(duration_secs);
        let mut status = "Downloaded ".to_owned();
        status.append(count_text.as_str());
        status.append("/");
        status.append(total_text.as_str());
        status.append(" total segments (last finished: ");
        status.append(finished_text.as_str());
        status.append("/");
        status.append(total_text.as_str());
        status.append(" in ");
        status.append(secs_text.as_str());
        status.append(" sec)");
        self.reporter.update(status, Stage::Downloading);
    }

    /// Start the combine stage.
    pub fn begin_combine(&mut self)
        requires
            old(self).wf(),
            old(self).current_stage() == Stage::Downloading,
        ensures
            final(self).wf(),
            final(self).reporter.history@ == old(self).reporter.history@.push(Stage::Combining),
            final(self).reporter.recording_row.status@ == "Starting segment combination"@,
            (*final(self)) == (ClipJob { reporter: final(self).reporter, ..*old(self) }),
    {
        self.reporter.update("Starting segment combination".to_owned(), Stage::Combining);
    }

    /// The two concatenation processes have been spawned.
    pub fn note_concat_started(&mut self)
        requires
            old(self).wf(),
            old(self).current_stage() == Stage::Combining,
        ensures
            final(self).wf(),
            final(self).reporter.history@ == old(self).reporter.history@.push(Stage::Combining),
            final(self).reporter.recording_row.status@
                == "Concatenating audio and video segments"@,
            (*final(self)) == (ClipJob { reporter: final(self).reporter, ..*old(self) }),
    {
        self.reporter.update("Concatenating audio and video segments".to_owned(), Stage::Combining);
    }

    /// Start the encode (mux) stage. The total duration behind progress
    /// percentages is the concatenation's last elapsed-time sample, or
    /// the segment range's expected play length when none arrived.
    pub fn begin_encode(&mut self, concat_elapsed_ms: Option<i64>)
        requires
            old(self).wf(),
            old(self).current_stage() == Stage::Combining,
        ensures
            final(self).wf(),
            final(self).reporter.history@ == old(self).reporter.history@.push(Stage::Encoding),
            final(self).reporter.recording_row.status@ == "Combining and encoding segments"@,
            final(self).total_duration_ms > 0,
            concat_elapsed_ms matches Some(t) ==> final(self).total_duration_ms == (if t > 0 {
                t as int
            } else {
                expected_duration_ms_spec(
                    old(self).first_segment_idx as int,
                    old(self).last_segment_idx as int,
                )
            }),
            concat_elapsed_ms is None ==> final(self).total_duration_ms
                == expected_duration_ms_spec(
                old(self).first_segment_idx as int,
                old(self).last_segment_idx as int,
            ),
            final(self).duration_estimated <==> !(concat_elapsed_ms matches Some(t) && t > 0),
            (*final(self)) == (ClipJob {
                reporter: final(self).reporter,
                total_duration_ms: final(self).total_duration_ms,
                duration_estimated: final(self).duration_estimated,
                ..*old(self)
            }),
    {
        let fallback = expected_duration_ms(self.first_segment_idx, self.last_segment_idx);
        self.duration_estimated = match concat_elapsed_ms {
            Some(t) => t <= 0,
            None => true,
        };
        self.total_duration_ms = total_duration_ms(concat_elapsed_ms, fallback);
        self.reporter.update("Combining and encoding segments".to_owned(), Stage::Encoding);
    }

    /// Report one encode progress sample as a percentage of the total
    /// duration.
    pub fn note_encode_progress(&mut self, elapsed_ms: i64)
        requires
            old(self).wf(),
            old(self).current_stage() == Stage::Encoding,
            old(self).total_duration_ms > 0,
        ensures
            final(self).wf(),
            final(self).reporter.history@ == old(self).reporter.history@.push(Stage::Encoding),
            final(self).reporter.recording_row.status@ == encode_status_text(
                elapsed_ms as int,
                old(self).total_duration_ms as int,
                old(self).duration_estimated,
            ),
            (*final(self)) == (ClipJob { reporter: final(self).reporter, ..*old(self) }),
    {
        let elapsed: u128 = if elapsed_ms < 0 {
            0
        } else {
            elapsed_ms as u128
        };
        let hundredths_wide: u128 = elapsed * 10000 / (self.total_duration_ms as u128);
        let hundredths: u64 = if hundredths_wide > u64::MAX as u128 {
            u64::MAX
        } else {
            hundredths_wide as u64
        };
        let percent = percent_to_string(hundredths);
        let mut status = "Combining and encoding segments (".to_owned();
        if self.duration_estimated {
            status.append("approx. ");
        }
        status.append(percent.as_str());
        status.append("%)");
        proof {
            assert(status@ =~= encode_status_text(
                elapsed_ms as int,
                old(self).total_duration_ms as int,
                old(self).duration_estimated,
            ));
        }
        self.reporter.update(status, Stage::Encoding);
    }

    /// Start the upload stage.
    pub fn begin_upload(&mut self)
        requires
            old(self).wf(),
            old(self).current_stage() == Stage::Encoding,
        ensures
            final(self).wf(),
            final(self).reporter.history@ == old(self).reporter.history@.push(Stage::Uploading),
            final(self).reporter.recording_row.status@ == "Uploading result"@,
            (*final(self)) == (ClipJob { reporter: final(self).reporter, ..*old(self) }),
    {
        self.reporter.update("Uploading result".to_owned(), Stage::Uploading);
    }

    /// The whole pipeline succeeded.
    pub fn complete(&mut self)
        requires
            old(self).wf(),
            old(self).current_stage() == Stage::Uploading,
        ensures
            final(self).wf(),
            final(self).reporter.history@ == old(self).reporter.history@.push(Stage::Complete),
            final(self).reporter.recording_row.status@ == "Done"@,
            (*final(self)) == (ClipJob { reporter: final(self).reporter, ..*old(self) }),
    {
        self.reporter.update("Done".to_owned(), Stage::Complete);
    }

    /// A stage failed: report the stage's failed-state with the error's
    /// description, and direct the cleanup — remove the working directory
    /// exactly when one was created, advance the queue exactly when the
    /// job entered it.
    pub fn fail(&mut self, error: &PipelineError) -> (cleanup: CleanupDirective)
        requires
            old(self).wf(),
            is_ok_stage(old(self).current_stage()),
            old(self).current_stage() != Stage::Complete,
        ensures
            final(self).wf(),
            final(self).reporter.history@ == old(self).reporter.history@.push(
                failed_stage_of(old(self).current_stage()),
            ),
            final(self).reporter.recording_row.status@ == error_text(*error),
            cleanup.remove_working_directory == old(self).directory_created,
            cleanup.advance_queue == old(self).enqueued,
            (*final(self)) == (ClipJob { reporter: final(self).reporter, ..*old(self) }),
    {
        let current = match Stage::from_code(self.reporter.recording_row.stage) {
            Some(stage) => stage,
            None => {
                proof {
                    assert(false);
                }
                Stage::FailedNondescript
            },
        };
        proof {
            assert(current == old(self).current_stage());
        }
        self.reporter.update(error.describe(), current.error_variant());
        CleanupDirective {
            remove_working_directory: self.directory_created,
            advance_queue: self.enqueued,
        }
    }
}

} // verus!
