use vidclipper::progress_line::{
    get_millis_from_time_string, get_time_string_from_line, get_ytdl_progress, media_line_progress,
    media_progress, total_millis, ytdl_line_progress, FULL_PROGRESS,
};

#[test]
fn downloader_line_gives_whole_percent() {
    assert_eq!(get_ytdl_progress("[download]  42.0% of 10.00MiB"), Some(42));
    assert_eq!(get_ytdl_progress("[download]   7.9% of 1.00MiB at 1.0MiB/s"), Some(7));
    assert_eq!(get_ytdl_progress("[download] 100% of 3.20MiB in 00:01"), Some(100));
}

#[test]
fn line_without_marker_or_percent_gives_nothing() {
    assert_eq!(get_ytdl_progress("random text"), None);
    assert_eq!(get_ytdl_progress("[download] Destination: a.mp4"), None);
    assert_eq!(get_ytdl_progress("progress 42.0% done"), None);
    assert_eq!(get_ytdl_progress(""), None);
}

#[test]
fn downloader_token_edge_cases() {
    assert_eq!(get_ytdl_progress("[download] 300.0%"), Some(255));
    assert_eq!(get_ytdl_progress("[download] -5.0%"), Some(0));
    assert_eq!(get_ytdl_progress("[download] abc%"), None);
    assert_eq!(get_ytdl_progress("[download] %"), None);
    assert_eq!(get_ytdl_progress("%[download]"), None);
    assert_eq!(get_ytdl_progress("[download]55%"), None);
    assert_eq!(get_ytdl_progress("[download] 12.5% then 99.0%"), Some(12));
}

#[test]
fn time_string_stops_at_whitespace() {
    assert_eq!(
        get_time_string_from_line("out_time_us=123456789 foo"),
        Some("123456789".to_string())
    );
    assert_eq!(
        get_time_string_from_line("frame=10 out_time_us=5000\tnext"),
        Some("5000".to_string())
    );
    assert_eq!(get_time_string_from_line("out_time_us="), Some(String::new()));
    assert_eq!(get_time_string_from_line("out_time=00:00:01.00"), None);
}

#[test]
fn millis_truncate_microseconds() {
    let t = get_time_string_from_line("out_time_us=123456789 foo").unwrap();
    assert_eq!(get_millis_from_time_string(&t), Some(123456));
    let t = get_time_string_from_line("x out_time_us=123456789 bar baz").unwrap();
    assert_eq!(get_millis_from_time_string(&t), Some(123456));
    assert_eq!(get_millis_from_time_string("999"), Some(0));
    assert_eq!(get_millis_from_time_string("+1000"), Some(1));
    assert_eq!(get_millis_from_time_string("abc"), None);
    assert_eq!(get_millis_from_time_string(""), None);
    assert_eq!(get_millis_from_time_string("-5"), None);
    assert_eq!(get_millis_from_time_string("18446744073709551615"), Some(18446744073709551));
    assert_eq!(get_millis_from_time_string("18446744073709551616"), None);
}

#[test]
fn progress_is_normalized_and_capped() {
    assert_eq!(total_millis(None), 1);
    assert_eq!(total_millis(Some(10)), 10000);
    assert_eq!(media_progress(500, 1000), 5000);
    assert_eq!(media_progress(2000, 1000), FULL_PROGRESS);
    assert_eq!(media_progress(7, 0), FULL_PROGRESS);
    assert_eq!(media_progress(1, 3), 3333);
    assert_eq!(ytdl_line_progress("[download]  42.0% of 10.00MiB"), Some(4200));
    assert_eq!(ytdl_line_progress("[download] 250.0%"), Some(FULL_PROGRESS));
    assert_eq!(ytdl_line_progress("nothing"), None);
}

#[test]
fn media_line_progress_against_duration() {
    assert_eq!(media_line_progress("out_time_us=5000000", total_millis(Some(10))), Some(5000));
    // With no duration asked for, any sample saturates at once.
    assert_eq!(media_line_progress("out_time_us=1000", total_millis(None)), Some(FULL_PROGRESS));
    assert_eq!(media_line_progress("out_time_us=0", total_millis(None)), Some(0));
    assert_eq!(media_line_progress("speed=1x", total_millis(None)), None);
    assert_eq!(media_line_progress("out_time_us=N/A", total_millis(Some(3))), None);
}
