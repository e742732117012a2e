use clip_pipeline::PORT;
use clip_pipeline::TrackKind;
use clip_pipeline::concat_codec;
use clip_pipeline::concat_input;
use clip_pipeline::encoder_plan;
use clip_pipeline::expected_duration_ms;
use clip_pipeline::mux_audio_codec;
use clip_pipeline::mux_video_codec;
use clip_pipeline::output_path;
use clip_pipeline::progress_url;
use clip_pipeline::total_duration_ms;
use clip_pipeline::track_concat_path;
use clip_pipeline::upload_command_args;
use clip_pipeline::working_directory;

#[test]
fn concat_input_lists_init_then_every_segment() {
    let input = concat_input("CH", "j1", TrackKind::Video, 38, 40);
    assert_eq!(
        input,
        "concat:temp/init/CH/video_init.m4s|temp/j1/video_38.m4s|temp/j1/video_39.m4s|temp/j1/video_40.m4s"
    );
}

#[test]
fn plan_names_every_file_and_the_codec() {
    let plan = encoder_plan("CH", "j1", 38, 38, false);
    assert_eq!(plan.video_concat_input, "concat:temp/init/CH/video_init.m4s|temp/j1/video_38.m4s");
    assert_eq!(plan.audio_concat_input, "concat:temp/init/CH/audio_init.m4s|temp/j1/audio_38.m4s");
    assert_eq!(plan.video_concat_output, "temp/j1/video_full.mp4");
    assert_eq!(plan.audio_concat_output, "temp/j1/audio_full.mp4");
    assert_eq!(plan.final_output, "temp/j1/output.mp4");
    assert_eq!(plan.concat_codec, "copy");
    assert_eq!(plan.video_codec, "copy");
    assert_eq!(plan.audio_codec, "copy");
    assert_eq!(plan.progress_address, "http://127.0.0.1:8081/ffmpeg-progress/j1");

    let encoding = encoder_plan("CH", "j1", 38, 38, true);
    assert_eq!(encoding.video_codec, "libx264");
    // Encoding only transcodes video: concatenation and audio stay lossless.
    assert_eq!(encoding.concat_codec, "copy");
    assert_eq!(encoding.audio_codec, "copy");
}

#[test]
fn codec_follows_the_encode_flag() {
    assert_eq!(mux_video_codec(true), "libx264");
    assert_eq!(mux_video_codec(false), "copy");
    assert_eq!(mux_audio_codec(), "copy");
    assert_eq!(concat_codec(), "copy");
}

#[test]
fn paths_are_scoped_to_the_job() {
    assert_eq!(working_directory("j9"), "temp/j9");
    assert_eq!(output_path("j9"), "temp/j9/output.mp4");
    assert_eq!(track_concat_path("j9", TrackKind::Audio), "temp/j9/audio_full.mp4");
    assert_eq!(progress_url(PORT, "j9"), "http://127.0.0.1:8081/ffmpeg-progress/j9");
}

#[test]
fn upload_invocation_carries_artifact_credentials_and_key() {
    let args = upload_command_args("j1", "user", "secret", "https://dav.example");
    assert_eq!(
        args,
        vec![
            "-T".to_string(),
            "temp/j1/output.mp4".to_string(),
            "-u".to_string(),
            "user:secret".to_string(),
            "https://dav.example/bbcd/j1.mp4".to_string(),
        ]
    );
}

#[test]
fn expected_duration_is_3840_ms_per_segment() {
    assert_eq!(expected_duration_ms(38, 38), 3840);
    assert_eq!(expected_duration_ms(38, 88), 51 * 3840);
}

#[test]
fn total_duration_prefers_the_concat_sample() {
    assert_eq!(total_duration_ms(Some(192_000), 100), 192_000);
    assert_eq!(total_duration_ms(Some(0), 100), 100);
    assert_eq!(total_duration_ms(Some(-5), 100), 100);
    assert_eq!(total_duration_ms(None, 100), 100);
}
