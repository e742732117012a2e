use clip_pipeline::Stage;

#[test]
fn codes_round_trip() {
    let stages = [
        Stage::WaitingQueue,
        Stage::Initializing,
        Stage::Downloading,
        Stage::Combining,
        Stage::Encoding,
        Stage::Uploading,
        Stage::Complete,
        Stage::FailedNondescript,
        Stage::DownloadingFailed,
        Stage::CombiningFailed,
        Stage::EncodingFailed,
        Stage::UploadingFailed,
    ];
    for stage in stages {
        assert_eq!(Stage::from_code(stage.to_code()), Some(stage));
    }
}

#[test]
fn ok_codes_are_contiguous_and_failed_codes_start_at_ten() {
    assert_eq!(Stage::WaitingQueue.to_code(), 0);
    assert_eq!(Stage::Initializing.to_code(), 1);
    assert_eq!(Stage::Downloading.to_code(), 2);
    assert_eq!(Stage::Combining.to_code(), 3);
    assert_eq!(Stage::Encoding.to_code(), 4);
    assert_eq!(Stage::Uploading.to_code(), 5);
    assert_eq!(Stage::Complete.to_code(), 6);
    assert_eq!(Stage::FailedNondescript.to_code(), 10);
    assert_eq!(Stage::DownloadingFailed.to_code(), 11);
    assert_eq!(Stage::CombiningFailed.to_code(), 12);
    assert_eq!(Stage::EncodingFailed.to_code(), 13);
    assert_eq!(Stage::UploadingFailed.to_code(), 14);
}

#[test]
fn unknown_codes_fail_loudly() {
    for code in [-1, 7, 8, 9, 15, 100, i32::MIN, i32::MAX] {
        assert_eq!(Stage::from_code(code), None);
    }
}

#[test]
fn error_variants_match_their_stage() {
    assert_eq!(Stage::Downloading.error_variant(), Stage::DownloadingFailed);
    assert_eq!(Stage::Combining.error_variant(), Stage::CombiningFailed);
    assert_eq!(Stage::Encoding.error_variant(), Stage::EncodingFailed);
    assert_eq!(Stage::Uploading.error_variant(), Stage::UploadingFailed);
    assert_eq!(Stage::WaitingQueue.error_variant(), Stage::FailedNondescript);
    assert_eq!(Stage::Initializing.error_variant(), Stage::FailedNondescript);
}
