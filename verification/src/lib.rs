//! Core engine of a live-broadcast clipping pipeline.
//!
//! The library holds the verified decision logic of the pipeline: mapping
//! wall-clock timestamps to media segment indices, the per-job stage state
//! machine with its persistence codes, the bounded-admission job queue, the
//! per-job progress bridge with its line parser, the planners that lay out
//! segment downloads and encoder invocations, and the status reporting that
//! keeps every observer's view of a job consistent and ordered.
//!
//! All I/O — HTTP serving, segment downloads, child processes, storage and
//! broadcast — lives outside the library and talks to it in plain values.

mod encoder;
mod error;
mod fetch;
mod job;
mod parse;
mod progress;
mod queue;
mod report;
mod segment;
mod server;
mod stage;
mod text;

pub use encoder::EncoderPlan;
pub use encoder::PORT;
pub use encoder::TrackKind;
pub use encoder::concat_codec;
pub use encoder::concat_input;
pub use encoder::concat_input_text;
pub use encoder::encoder_plan;
pub use encoder::expected_duration_ms;
pub use encoder::expected_duration_ms_spec;
pub use encoder::init_segment_path;
pub use encoder::init_segment_path_text;
pub use encoder::mux_audio_codec;
pub use encoder::mux_video_codec;
pub use encoder::output_path;
pub use encoder::output_path_text;
pub use encoder::progress_url;
pub use encoder::progress_url_text;
pub use encoder::segment_list_text;
pub use encoder::segment_media_path;
pub use encoder::segment_media_path_text;
pub use encoder::total_duration_ms;
pub use encoder::track_concat_path;
pub use encoder::track_concat_path_text;
pub use encoder::track_str;
pub use encoder::track_text;
pub use encoder::upload_command_args;
pub use encoder::working_directory;
pub use encoder::working_directory_text;
pub use error::PipelineError;
pub use error::error_text;
pub use fetch::FetchOutcome;
pub use fetch::SegmentDownload;
pub use fetch::SegmentFetcher;
pub use fetch::download_entry_ok;
pub use fetch::download_plan;
pub use fetch::fetch_step;
pub use fetch::init_download_plan;
pub use fetch::init_url;
pub use fetch::init_url_text;
pub use fetch::lemma_fetch_idempotent;
pub use fetch::segment_url;
pub use fetch::segment_url_text;
pub use job::ClipJob;
pub use job::ClipParameters;
pub use job::CleanupDirective;
pub use job::download_status_text;
pub use job::encode_hundredths;
pub use job::encode_status_text;
pub use job::queue_status_text;
pub use parse::chunk_times;
pub use parse::digits_value;
pub use parse::div_1000_toward_zero;
pub use parse::find_after_marker;
pub use parse::find_out_time;
pub use parse::first_match_from;
pub use parse::matches_at;
pub use parse::out_time_ms_of_line;
pub use parse::parse_i64;
pub use parse::parse_i64_spec;
pub use parse::progress_times_in_chunk;
pub use parse::strip_cr;
pub use progress::ChannelState;
pub use progress::PollOutcome;
pub use progress::ProgressBridge;
pub use progress::lemma_progress_channel_isolated;
pub use queue::JobQueue;
pub use queue::JobQueueReport;
pub use queue::QueueNotice;
pub use queue::lemma_advance_repositions;
pub use queue::lemma_fifo_admission_order;
pub use queue::lemma_single_slot_admission;
pub use report::Recording;
pub use report::RecordingUpdate;
pub use report::StatusReporter;
pub use report::short_status_str;
pub use report::short_status_text;
pub use segment::calculate_segment_idx;
pub use segment::lemma_segment_index_bound;
pub use segment::lemma_segment_index_monotonic;
pub use segment::segment_index_spec;
pub use server::CallbackError;
pub use server::ServerError;
pub use server::ServerMessage;
pub use server::SourceEntry;
pub use server::broadcast_outcome;
pub use server::callback_reply;
pub use server::listing_window;
pub use stage::Stage;
pub use stage::failed_stage_of;
pub use stage::is_failed_stage;
pub use stage::is_ok_stage;
pub use stage::lemma_observed_stages_ordered;
pub use stage::stage_code;
pub use stage::stage_rank;
pub use stage::stage_step_allowed;
pub use stage::valid_stage_history;
pub use text::dec_rep;
pub use text::digit_char;
pub use text::percent_rep;
pub use text::percent_to_string;
pub use text::u64_to_string;
pub use text::usize_to_string;
