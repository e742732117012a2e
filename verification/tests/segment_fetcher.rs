use clip_pipeline::FetchOutcome;
use clip_pipeline::SegmentFetcher;
use clip_pipeline::TrackKind;
use clip_pipeline::download_plan;
use clip_pipeline::init_download_plan;
use clip_pipeline::segment_url;

#[test]
fn fetch_downloads_an_absent_destination_once() {
    let mut fetcher = SegmentFetcher::new();
    assert_eq!(
        fetcher.fetch("http://example/seg/100.m4s", "temp/j/video_100.m4s", true),
        FetchOutcome::Downloaded
    );
    // Same destination again: no network transfer is made.
    assert_eq!(
        fetcher.fetch("http://example/seg/100.m4s", "temp/j/video_100.m4s", true),
        FetchOutcome::AlreadyPresent
    );
    assert!(fetcher.is_present("temp/j/video_100.m4s"));
}

#[test]
fn failed_fetch_leaves_no_partial_file() {
    let mut fetcher = SegmentFetcher::new();
    assert_eq!(
        fetcher.fetch("http://example/seg/7.m4s", "temp/j/audio_7.m4s", false),
        FetchOutcome::Failed
    );
    assert!(!fetcher.is_present("temp/j/audio_7.m4s"));
    // A retry fetches the resource afresh.
    assert_eq!(
        fetcher.fetch("http://example/seg/7.m4s", "temp/j/audio_7.m4s", true),
        FetchOutcome::Downloaded
    );
    assert!(fetcher.is_present("temp/j/audio_7.m4s"));
}

#[test]
fn destinations_are_tracked_separately() {
    let mut fetcher = SegmentFetcher::new();
    fetcher.fetch("u1", "a", true);
    assert!(fetcher.is_present("a"));
    assert!(!fetcher.is_present("b"));
    assert!(!fetcher.is_present("aa"));
}

#[test]
fn segment_urls_follow_the_template() {
    assert_eq!(
        segment_url("https://host/x=4/", TrackKind::Video, 442),
        "https://host/x=4/t=3840/v=pv14/b=5070016/442.m4s"
    );
    assert_eq!(
        segment_url("https://host/x=4/", TrackKind::Audio, 442),
        "https://host/x=4/t=3840/a=pa3/al=en-GB/ap=main/b=96000/442.m4s"
    );
}

#[test]
fn download_plan_covers_exactly_the_range() {
    let plan = download_plan("https://host/", "job-1", 38, 40);
    assert_eq!(plan.len(), 3);
    assert_eq!(plan[0].segment_idx, 38);
    assert_eq!(plan[2].segment_idx, 40);
    assert_eq!(plan[1].video_url, "https://host/t=3840/v=pv14/b=5070016/39.m4s");
    assert_eq!(plan[1].video_path, "temp/job-1/video_39.m4s");
    assert_eq!(plan[1].audio_url, "https://host/t=3840/a=pa3/al=en-GB/ap=main/b=96000/39.m4s");
    assert_eq!(plan[1].audio_path, "temp/job-1/audio_39.m4s");
}

#[test]
fn init_plan_names_both_tracks() {
    let [video, audio] = init_download_plan("https://host/", "BBC ONE HD");
    assert_eq!(video.0, "https://host/v=pv14/b=5070016/segment.init");
    assert_eq!(video.1, "temp/init/BBC ONE HD/video_init.m4s");
    assert_eq!(audio.0, "https://host/a=pa3/al=en-GB/ap=main/b=96000/segment.init");
    assert_eq!(audio.1, "temp/init/BBC ONE HD/audio_init.m4s");
}
