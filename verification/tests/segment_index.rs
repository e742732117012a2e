use clip_pipeline::calculate_segment_idx;

#[test]
fn zero_timestamp_maps_to_offset() {
    assert_eq!(calculate_segment_idx(0), 38);
}

#[test]
fn one_segment_duration_advances_fifty_indices() {
    // 192 seconds cover exactly 50 segments of 192/50 seconds each.
    assert_eq!(calculate_segment_idx(192), 88);
    assert_eq!(calculate_segment_idx(3840), 1038);
}

#[test]
fn rounds_down_within_a_segment() {
    assert_eq!(calculate_segment_idx(191), 87);
    assert_eq!(calculate_segment_idx(1), 38);
    assert_eq!(calculate_segment_idx(3), 38);
    assert_eq!(calculate_segment_idx(4), 39);
}

#[test]
fn deterministic_across_calls() {
    let t = 1_700_000_000;
    let first = calculate_segment_idx(t);
    let second = calculate_segment_idx(t);
    assert_eq!(first, second);
}

#[test]
fn monotonic_over_samples() {
    let mut previous = calculate_segment_idx(0);
    for t in 1..2000usize {
        let index = calculate_segment_idx(t);
        assert!(index >= previous);
        previous = index;
    }
}

#[test]
fn known_wall_clock_value() {
    // floor(1700000000 * 50 / 192) + 38
    assert_eq!(calculate_segment_idx(1_700_000_000), 442_708_371);
}
