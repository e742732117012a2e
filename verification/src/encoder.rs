//! Planning the external encoding and upload processes.
//!
//! The encoder runs three external processes: one lossless concatenation
//! of the video segments, one of the audio segments, then a mux of the
//! two intermediates into the final output, copying audio and copying or
//! transcoding video. This module pins down every decision handed to
//! those processes: the working-directory file layout, the `concat:`
//! input lists, the codec choice, the progress-report address, the upload
//! invocation, and the duration estimate behind percentage reports.

use vstd::prelude::*;

use crate::text::dec_rep;
use crate::text::u64_to_string;
use crate::text::usize_to_string;

verus! {

/// Port the progress-report callback address points at.
pub const PORT: u16 = 8081;

/// One media track of the stream.
#[derive(Clone, Copy, Debug, PartialEq, Eq, Structural)]
pub enum TrackKind {
    Video,
    Audio,
}

/// The name a track carries in file names.
pub open spec fn track_text(kind: TrackKind) -> Seq<char> {
    match kind {
        TrackKind::Video => "video"@,
        TrackKind::Audio => "audio"@,
    }
}

/// The name a track carries in file names.
pub fn track_str(kind: TrackKind) -> (s: &'static str)
    ensures
        s@ == track_text(kind),
{
    match kind {
        TrackKind::Video => "video",
        TrackKind::Audio => "audio",
    }
}

/// The working directory of a job.
pub open spec fn working_directory_text(uuid: Seq<char>) -> Seq<char> {
    "temp/"@ + uuid
}

/// The working directory of a job.
pub fn working_directory(uuid: &str) -> (p: String)
    ensures
        p@ == working_directory_text(uuid@),
{
    let mut p = "temp/".to_owned();
    p.append(uuid);
    p
}

/// Where one downloaded media segment of a job lives.
pub open spec fn segment_media_path_text(uuid: Seq<char>, kind: TrackKind, idx: nat) -> Seq<char> {
    "temp/"@ + uuid + "/"@ + track_text(kind) + "_"@ + dec_rep(idx) + ".m4s"@
}

/// Where one downloaded media segment of a job lives.
pub fn segment_media_path(uuid: &str, kind: TrackKind, idx: usize) -> (p: String)
    ensures
        p@ == segment_media_path_text(uuid@, kind, idx as nat),
{
    let mut p = "temp/".to_owned();
    p.append(uuid);
    p.append("/");
    p.append(track_str(kind));
    p.append("_");
    let n = usize_to_string(idx);
    p.append(n.as_str());
    p.append(".m4s");
    p
}

/// Where a channel's cached initialization segment lives.
pub open spec fn init_segment_path_text(channel: Seq<char>, kind: TrackKind) -> Seq<char> {
    "temp/init/"@ + channel + "/"@ + track_text(kind) + "_init.m4s"@
}

/// Where a channel's cached initialization segment lives.
pub fn init_segment_path(channel: &str, kind: TrackKind) -> (p: String)
    ensures
        p@ == init_segment_path_text(channel@, kind),
{
    let mut p = "temp/init/".to_owned();
    p.append(channel);
    p.append("/");
    p.append(track_str(kind));
    p.append("_init.m4s");
    p
}

/// The `|`-separated tail of a `concat:` input list: one entry per media
/// segment from `first` through `last`.
pub open spec fn segment_list_text(
    uuid: Seq<char>,
    kind: TrackKind,
    first: int,
    last: int,
) -> Seq<char>
    decreases last - first + 1,
{
    if last < first {
        Seq::empty()
    } else {
        segment_list_text(uuid, kind, first, last - 1) + "|"@ + segment_media_path_text(
            uuid,
            kind,
            last as nat,
        )
    }
}

/// The full `concat:` input of one track: the channel's initialization
/// segment followed by every media segment of the job's range.
pub open spec fn concat_input_text(
    channel: Seq<char>,
    uuid: Seq<char>,
    kind: TrackKind,
    first: int,
    last: int,
) -> Seq<char> {
    "concat:"@ + init_segment_path_text(channel, kind) + segment_list_text(
        uuid,
        kind,
        first,
        last,
    )
}

/// Build the `concat:` input of one track.
pub fn concat_input(channel: &str, uuid: &str, kind: TrackKind, first: usize, last: usize) -> (s:
    String)
    requires
        first <= last,
        last < usize::MAX,
    ensures
        s@ == concat_input_text(channel@, uuid@, kind, first as int, last as int),
{
    let mut s = "concat:".to_owned();
    let init = init_segment_path(channel, kind);
    s.append(init.as_str());
    proof {
        assert(s@ =~= "concat:"@ + init_segment_path_text(channel@, kind) + segment_list_text(
            uuid@,
            kind,
            first as int,
            first - 1,
        ));
    }
    let mut idx: usize = first;
    while idx <= last
        invariant
            first <= idx <= last + 1,
            last < usize::MAX,
            s@ == concat_input_text(channel@, uuid@, kind, first as int, idx - 1),
        decreases last + 1 - idx,
    {
        s.append("|");
        let p = segment_media_path(uuid, kind, idx);
        s.append(p.as_str());
        proof {
            assert(s@ =~= concat_input_text(channel@, uuid@, kind, first as int, idx as int));
        }
        idx += 1;
    }
    s
}

/// The concatenated-track intermediate file of a job.
pub open spec fn track_concat_path_text(uuid: Seq<char>, kind: TrackKind) -> Seq<char> {
    "temp/"@ + uuid + "/"@ + track_text(kind) + "_full.mp4"@
}

/// The concatenated-track intermediate file of a job.
pub fn track_concat_path(uuid: &str, kind: TrackKind) -> (p: String)
    ensures
        p@ == track_concat_path_text(uuid@, kind),
{
    let mut p = "temp/".to_owned();
    p.append(uuid);
    p.append("/");
    p.append(track_str(kind));
    p.append("_full.mp4");
    p
}

/// The final output artifact of a job.
pub open spec fn output_path_text(uuid: Seq<char>) -> Seq<char> {
    "temp/"@ + uuid + "/output.mp4"@
}

/// The final output artifact of a job.
pub fn output_path(uuid: &str) -> (p: String)
    ensures
        p@ == output_path_text(uuid@),
{
    let mut p = "temp/".to_owned();
    p.append(uuid);
    p.append("/output.mp4");
    p
}

/// The in-process callback address an external process reports progress
/// to, addressed by job id.
pub open spec fn progress_url_text(port: u16, uuid: Seq<char>) -> Seq<char> {
    "http://127.0.0.1:"@ + dec_rep(port as nat) + "/ffmpeg-progress/"@ + uuid
}

/// The in-process callback address an external process reports progress
/// to, addressed by job id.
pub fn progress_url(port: u16, uuid: &str) -> (u: String)
    ensures
        u@ == progress_url_text(port, uuid@),
{
    let mut u = "http://127.0.0.1:".to_owned();
    let p = u64_to_string(port as u64);
    u.append(p.as_str());
    u.append("/ffmpeg-progress/");
    u.append(uuid);
    u
}

/// The video codec of the mux step: transcode when encoding was asked
/// for, plain copy otherwise. Audio is always copied.
pub fn mux_video_codec(encode: bool) -> (c: &'static str)
    ensures
        encode ==> c@ == "libx264"@,
        !encode ==> c@ == "copy"@,
{
    if encode {
        "libx264"
    } else {
        "copy"
    }
}

/// The codec of both concatenation steps: the segments are joined
/// losslessly, never re-encoded.
pub fn concat_codec() -> (c: &'static str)
    ensures
        c@ == "copy"@,
{
    "copy"
}

/// The audio codec of the mux step: the audio track is copied verbatim.
pub fn mux_audio_codec() -> (c: &'static str)
    ensures
        c@ == "copy"@,
{
    "copy"
}

/// Everything the three external encoder processes are started with.
pub struct EncoderPlan {
    /// `concat:` input of the video concatenation step.
    pub video_concat_input: String,
    /// `concat:` input of the audio concatenation step.
    pub audio_concat_input: String,
    /// Output of the video concatenation step.
    pub video_concat_output: String,
    /// Output of the audio concatenation step.
    pub audio_concat_output: String,
    /// Output of the mux step.
    pub final_output: String,
    /// Codec of both concatenation steps: lossless copy.
    pub concat_codec: String,
    /// Video codec of the mux step.
    pub video_codec: String,
    /// Audio codec of the mux step: copied verbatim.
    pub audio_codec: String,
    /// Address the concatenation and mux steps report progress to.
    pub progress_address: String,
}

/// Lay out the encoder's process graph for one job.
pub fn encoder_plan(channel: &str, uuid: &str, first: usize, last: usize, encode: bool) -> (plan:
    EncoderPlan)
    requires
        first <= last,
        last < usize::MAX,
    ensures
        plan.video_concat_input@ == concat_input_text(
            channel@,
            uuid@,
            TrackKind::Video,
            first as int,
            last as int,
        ),
        plan.audio_concat_input@ == concat_input_text(
            channel@,
            uuid@,
            TrackKind::Audio,
            first as int,
            last as int,
        ),
        plan.video_concat_output@ == track_concat_path_text(uuid@, TrackKind::Video),
        plan.audio_concat_output@ == track_concat_path_text(uuid@, TrackKind::Audio),
        plan.final_output@ == output_path_text(uuid@),
        plan.concat_codec@ == "copy"@,
        plan.video_codec@ == (if encode {
            "libx264"@
        } else {
            "copy"@
        }),
        plan.audio_codec@ == "copy"@,
        plan.progress_address@ == progress_url_text(PORT, uuid@),
{
    EncoderPlan {
        video_concat_input: concat_input(channel, uuid, TrackKind::Video, first, last),
        audio_concat_input: concat_input(channel, uuid, TrackKind::Audio, first, last),
        video_concat_output: track_concat_path(uuid, TrackKind::Video),
        audio_concat_output: track_concat_path(uuid, TrackKind::Audio),
        final_output: output_path(uuid),
        concat_codec: concat_codec().to_owned(),
        video_codec: mux_video_codec(encode).to_owned(),
        audio_codec: mux_audio_codec().to_owned(),
        progress_address: progress_url(PORT, uuid),
    }
}

/// The arguments of the external upload transfer: the artifact, the
/// credentials, and the channel/uuid-scoped remote key.
pub fn upload_command_args(uuid: &str, username: &str, password: &str, webdav_url: &str) -> (args:
    Vec<String>)
    ensures
        args@.len() == 5,
        args@[0]@ == "-T"@,
        args@[1]@ == output_path_text(uuid@),
        args@[2]@ == "-u"@,
        args@[3]@ == username@ + ":"@ + password@,
        args@[4]@ == webdav_url@ + "/bbcd/"@ + uuid@ + ".mp4"@,
{
    let mut args: Vec<String> = Vec::new();
    args.push("-T".to_owned());
    args.push(output_path(uuid));
    args.push("-u".to_owned());
    let mut credentials = username.to_owned();
    credentials.append(":");
    credentials.append(password);
    args.push(credentials);
    let mut target = webdav_url.to_owned();
    target.append("/bbcd/");
    target.append(uuid);
    target.append(".mp4");
    args.push(target);
    args
}

/// The expected play length of a segment range, in milliseconds: each
/// segment covers 192/50 seconds, so 3840 ms per segment, saturating at
/// the representable maximum.
pub open spec fn expected_duration_ms_spec(first: int, last: int) -> int {
    let total = (last - first + 1) * 3840;
    if total > i64::MAX {
        i64::MAX as int
    } else {
        total
    }
}

/// The expected play length of a segment range, in milliseconds.
pub fn expected_duration_ms(first: usize, last: usize) -> (ms: i64)
    requires
        first <= last,
    ensures
        ms == expected_duration_ms_spec(first as int, last as int),
        ms > 0,
{
    let count = (last - first) as u128 + 1;
    let total = count * 3840;
    if total > i64::MAX as u128 {
        i64::MAX
    } else {
        proof {
            assert(count * 3840 >= 3840) by (nonlinear_arith)
                requires
                    count >= 1,
            ;
        }
        total as i64
    }
}

/// The total duration the encode percentage is computed against: the
/// last elapsed-time sample the concatenation steps reported, or, when
/// they reported none (or nonsense), the expected play length of the
/// segment range.
pub fn total_duration_ms(concat_elapsed: Option<i64>, fallback: i64) -> (total: i64)
    requires
        fallback > 0,
    ensures
        concat_elapsed matches Some(t) ==> total == (if t > 0 {
            t
        } else {
            fallback
        }),
        concat_elapsed is None ==> total == fallback,
        total > 0,
{
    match concat_elapsed {
        Some(t) => {
            if t > 0 {
                t
            } else {
                fallback
            }
        },
        None => fallback,
    }
}

} // verus!
