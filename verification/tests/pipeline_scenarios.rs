use clip_pipeline::CallbackError;
use clip_pipeline::ServerError;
use clip_pipeline::ClipJob;
use clip_pipeline::ClipParameters;
use clip_pipeline::JobQueue;
use clip_pipeline::JobQueueReport;
use clip_pipeline::PipelineError;
use clip_pipeline::ServerMessage;
use clip_pipeline::broadcast_outcome;
use clip_pipeline::callback_reply;
use clip_pipeline::calculate_segment_idx;
use clip_pipeline::download_plan;
use clip_pipeline::listing_window;

fn parameters(start: usize, end: usize, channel: &str, encode: bool) -> ClipParameters {
    ClipParameters {
        start_timestamp: start,
        end_timestamp: end,
        channel: channel.to_string(),
        encode,
    }
}

#[test]
fn uncontended_job_walks_every_stage_to_complete() {
    let start = 1_700_000_000usize;
    let end = start + 192;
    let mut job = ClipJob::new("job-a".to_string(), parameters(start, end, "X", false));
    assert_eq!(job.reporter.recording_row.status, "Pending");
    assert_eq!(job.reporter.recording_row.stage, 0);
    assert_eq!(job.reporter.recording_row.rec_start, start as i64);
    assert_eq!(job.reporter.recording_row.rec_end, end as i64);

    job.resolve_source(Some("https://host/".to_string())).unwrap();

    let mut queue = JobQueue::new(1);
    let ready = queue.enqueue(1);
    job.mark_enqueued();
    assert!(ready);

    job.begin_initializing();
    assert_eq!(job.reporter.recording_row.stage, 1);
    job.mark_directory_created();

    job.begin_download();
    assert_eq!(job.reporter.recording_row.status, "Starting download");

    // Exactly the range [segment_index(start), segment_index(end)] is fetched.
    assert_eq!(job.first_segment_idx, calculate_segment_idx(start));
    assert_eq!(job.last_segment_idx, calculate_segment_idx(end));
    assert_eq!(job.last_segment_idx - job.first_segment_idx, 50);
    let plan = download_plan("https://host/", "job-a", job.first_segment_idx, job.last_segment_idx);
    assert_eq!(plan.len(), 51);

    job.note_segment_downloaded(job.first_segment_idx, 2);
    assert_eq!(
        job.reporter.recording_row.status,
        "Downloaded 1/51 total segments (last finished: 1/51 in 2 sec)"
    );

    job.begin_combine();
    job.note_concat_started();
    job.begin_encode(Some(192_000));
    assert_eq!(job.total_duration_ms, 192_000);
    job.note_encode_progress(96_000);
    assert_eq!(job.reporter.recording_row.status, "Combining and encoding segments (50.00%)");

    job.begin_upload();
    job.complete();
    assert_eq!(job.reporter.recording_row.status, "Done");
    assert_eq!(job.reporter.recording_row.stage, 6);
    assert_eq!(job.reporter.recording_row.short_status, "complete");

    let notices = queue.advance(1).unwrap();
    assert!(notices.is_empty());
}

#[test]
fn contended_job_reports_its_queue_position() {
    let mut queue = JobQueue::new(1);
    queue.enqueue(1);

    let mut job = ClipJob::new("job-b".to_string(), parameters(100, 400, "X", false));
    job.resolve_source(Some("https://host/".to_string())).unwrap();
    let ready = queue.enqueue(2);
    job.mark_enqueued();
    assert!(!ready);

    // The first job finishes; the waiter is renumbered and admitted.
    let notices = queue.advance(1).unwrap();
    assert_eq!(notices[0].job_id, 2);
    assert_eq!(notices[0].report, JobQueueReport::Ready);

    job.note_queue_position(1);
    assert_eq!(job.reporter.recording_row.status, "Queue position: 1");
    assert_eq!(job.reporter.recording_row.stage, 0);
    job.begin_initializing();
    assert_eq!(job.reporter.recording_row.stage, 1);
}

#[test]
fn unknown_channel_fails_before_directory_or_queue_entry() {
    let mut job = ClipJob::new("job-c".to_string(), parameters(100, 400, "NO SUCH", false));
    let error = job.resolve_source(None).unwrap_err();
    match &error {
        PipelineError::Configuration(_) => {},
        _ => panic!("expected a configuration error"),
    }
    let cleanup = job.fail(&error);
    assert!(!cleanup.remove_working_directory);
    assert!(!cleanup.advance_queue);
    assert_eq!(job.reporter.recording_row.stage, 10);
    assert_eq!(job.reporter.recording_row.short_status, "failed");
    assert_eq!(
        job.reporter.recording_row.status,
        "configuration error: failed to find channel"
    );
}

#[test]
fn failed_mux_reports_encoding_failed_and_frees_the_slot() {
    let mut queue = JobQueue::new(1);

    let mut job = ClipJob::new("job-d".to_string(), parameters(0, 192, "X", true));
    job.resolve_source(Some("https://host/".to_string())).unwrap();
    assert!(queue.enqueue(1));
    job.mark_enqueued();

    // A second job waits behind the first.
    assert!(!queue.enqueue(2));

    job.begin_initializing();
    job.mark_directory_created();
    job.begin_download();
    job.begin_combine();
    job.note_concat_started();
    job.begin_encode(None);

    // The mux step exits non-zero.
    let error = PipelineError::Process("combine job failed".to_string());
    let cleanup = job.fail(&error);
    assert_eq!(job.reporter.recording_row.stage, 13);
    assert_eq!(job.reporter.recording_row.short_status, "encode-failed");
    assert!(cleanup.remove_working_directory);
    assert!(cleanup.advance_queue);

    let notices = queue.advance(1).unwrap();
    assert_eq!(notices[0].job_id, 2);
    assert_eq!(notices[0].report, JobQueueReport::Ready);
}

#[test]
fn encode_progress_uses_the_fallback_estimate() {
    let mut job = ClipJob::new("job-e".to_string(), parameters(0, 192, "X", false));
    job.resolve_source(Some("https://host/".to_string())).unwrap();
    job.begin_initializing();
    job.begin_download();
    job.begin_combine();
    job.begin_encode(None);
    // 51 segments at 3840 ms each.
    assert_eq!(job.total_duration_ms, 51 * 3840);
    job.note_encode_progress(51 * 3840);
    assert_eq!(
        job.reporter.recording_row.status,
        "Combining and encoding segments (approx. 100.00%)"
    );
    job.note_encode_progress(-50);
    assert_eq!(
        job.reporter.recording_row.status,
        "Combining and encoding segments (approx. 0.00%)"
    );
}

#[test]
fn persistence_failure_maps_to_the_current_stage() {
    let mut job = ClipJob::new("job-f".to_string(), parameters(0, 192, "X", false));
    job.resolve_source(Some("https://host/".to_string())).unwrap();
    job.begin_initializing();
    job.mark_directory_created();
    job.begin_download();
    let error = PipelineError::TransientIo("request to https://host timed out".to_string());
    let cleanup = job.fail(&error);
    assert_eq!(job.reporter.recording_row.stage, 11);
    assert_eq!(job.reporter.recording_row.short_status, "download-failed");
    assert!(cleanup.remove_working_directory);
}

#[test]
fn callback_outcomes_map_to_replies() {
    match callback_reply(Ok(Some(ServerMessage::Error("oops".to_string())))) {
        Some(ServerMessage::Error(text)) => assert_eq!(text, "oops"),
        _ => panic!("expected the handler's reply"),
    }
    assert!(callback_reply(Ok(None)).is_none());
    match callback_reply(Err(CallbackError::Loud("bad".to_string()))) {
        Some(ServerMessage::Error(text)) => assert_eq!(text, "bad"),
        _ => panic!("expected an error message"),
    }
    assert!(callback_reply(Err(CallbackError::Silent("shh".to_string()))).is_none());
}

#[test]
fn broadcast_failures_are_counted_not_fatal() {
    assert!(broadcast_outcome(0).is_ok());
    assert_eq!(broadcast_outcome(3), Err(3));
}

#[test]
fn listing_window_defaults() {
    assert_eq!(listing_window(None, None), (0, 15));
    assert_eq!(listing_window(Some(30), None), (30, 15));
    assert_eq!(listing_window(None, Some(50)), (0, 50));
    assert_eq!(listing_window(Some(5), Some(10)), (5, 10));
}

#[test]
fn server_error_carries_its_message() {
    let error = ServerError::new("failed to access database".to_string());
    assert_eq!(error.message(), "failed to access database");
}

#[test]
fn callback_errors_default_to_loud() {
    let error = CallbackError::from("boom".to_string());
    assert_eq!(error.message(), "boom");
    match callback_reply(Err(error)) {
        Some(ServerMessage::Error(text)) => assert_eq!(text, "boom"),
        _ => panic!("a converted error should be loud"),
    }
}

#[test]
fn error_descriptions_carry_their_kind() {
    assert_eq!(
        PipelineError::Process("exit 1".to_string()).describe(),
        "process error: exit 1"
    );
    assert_eq!(
        PipelineError::QueueInvariant("gone".to_string()).describe(),
        "queue invariant error: gone"
    );
    assert_eq!(
        PipelineError::Persistence("row missing".to_string()).describe(),
        "persistence error: row missing"
    );
    assert_eq!(
        PipelineError::TransientIo("reset".to_string()).describe(),
        "transient i/o error: reset"
    );
    assert_eq!(
        PipelineError::Configuration("no channel".to_string()).describe(),
        "configuration error: no channel"
    );
}
