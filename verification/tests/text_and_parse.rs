use clip_pipeline::find_after_marker;
use clip_pipeline::find_out_time;
use clip_pipeline::parse_i64;
use clip_pipeline::percent_to_string;
use clip_pipeline::progress_times_in_chunk;
use clip_pipeline::u64_to_string;
use clip_pipeline::usize_to_string;

#[test]
fn decimal_rendering() {
    assert_eq!(usize_to_string(0), "0");
    assert_eq!(usize_to_string(7), "7");
    assert_eq!(usize_to_string(10), "10");
    assert_eq!(usize_to_string(1234), "1234");
    assert_eq!(u64_to_string(u64::MAX), "18446744073709551615");
}

#[test]
fn percent_rendering() {
    assert_eq!(percent_to_string(0), "0.00");
    assert_eq!(percent_to_string(5), "0.05");
    assert_eq!(percent_to_string(50), "0.50");
    assert_eq!(percent_to_string(1234), "12.34");
    assert_eq!(percent_to_string(10000), "100.00");
    assert_eq!(percent_to_string(12345), "123.45");
}

#[test]
fn parse_plain_integers() {
    assert_eq!(parse_i64("0"), Some(0));
    assert_eq!(parse_i64("123"), Some(123));
    assert_eq!(parse_i64("-5"), Some(-5));
    assert_eq!(parse_i64("+7"), Some(7));
    assert_eq!(parse_i64("000123"), Some(123));
}

#[test]
fn parse_rejects_malformed_input() {
    assert_eq!(parse_i64(""), None);
    assert_eq!(parse_i64("-"), None);
    assert_eq!(parse_i64("+"), None);
    assert_eq!(parse_i64("12a"), None);
    assert_eq!(parse_i64("a12"), None);
    assert_eq!(parse_i64("1 2"), None);
    assert_eq!(parse_i64("--3"), None);
}

#[test]
fn parse_at_the_64_bit_bounds() {
    assert_eq!(parse_i64("9223372036854775807"), Some(i64::MAX));
    assert_eq!(parse_i64("-9223372036854775808"), Some(i64::MIN));
    assert_eq!(parse_i64("9223372036854775808"), None);
    assert_eq!(parse_i64("-9223372036854775809"), None);
    assert_eq!(parse_i64("99999999999999999999999"), None);
}

#[test]
fn parse_agrees_with_std() {
    for input in ["42", "-17", "+0", "007", "", "x", "184467440737095516150"] {
        assert_eq!(parse_i64(input), input.parse::<i64>().ok());
    }
}

#[test]
fn out_time_of_one_line() {
    assert_eq!(find_out_time("out_time_us=1500000"), Some(1500));
    assert_eq!(find_out_time("out_time_us=999"), Some(0));
    assert_eq!(find_out_time("out_time_us=-2000"), Some(-2));
    assert_eq!(find_out_time("frame=10"), None);
    assert_eq!(find_out_time("out_time_us=abc"), None);
    assert_eq!(find_out_time(""), None);
}

#[test]
fn out_time_takes_first_marker() {
    assert_eq!(find_out_time("xout_time_us=4000"), Some(4));
}

#[test]
fn chunk_yields_one_sample_per_progress_line() {
    let chunk = "frame=1\nout_time_us=1000000\nprogress=continue\nout_time_us=2000000\n";
    assert_eq!(progress_times_in_chunk(chunk), vec![1000, 2000]);
}

#[test]
fn chunk_handles_crlf_and_final_line() {
    let chunk = "out_time_us=5000000\r\nout_time_us=6000000";
    assert_eq!(progress_times_in_chunk(chunk), vec![5000, 6000]);
    assert_eq!(progress_times_in_chunk(""), Vec::<i64>::new());
    assert_eq!(progress_times_in_chunk("progress=end\n"), Vec::<i64>::new());
}

#[test]
fn marker_search_finds_first_occurrence() {
    assert_eq!(find_after_marker("abcXdef", "X"), Some(4));
    assert_eq!(find_after_marker("aaab", "ab"), Some(4));
    assert_eq!(find_after_marker("abc", "zz"), None);
    assert_eq!(find_after_marker("", "a"), None);
    assert_eq!(find_after_marker("abab", "ab"), Some(2));
}
