use audioinfo::{AudioFile, AudioInfo};

fn file_lasting(duration: &str) -> AudioFile {
    let mut file = AudioFile::default();
    file.duration = duration.to_string();
    file
}

#[test]
fn formats_zero_seconds() {
    assert_eq!(AudioInfo::format_duration(0, 44_100), "00:00:00.00");
}

#[test]
fn formats_an_hour_a_minute_a_second_and_a_half() {
    assert_eq!(AudioInfo::format_duration(7_323, 2), "01:01:01.50");
}

#[test]
fn formats_a_stream_of_compact_disc_samples() {
    // 161_472_150 samples at 44_100 a second are 3661.5 seconds
    assert_eq!(AudioInfo::format_duration(161_472_150, 44_100), "01:01:01.50");
}

#[test]
fn rounds_the_fraction_to_the_nearest_hundredth() {
    assert_eq!(AudioInfo::format_duration(1_234, 1_000), "00:00:01.23");
    assert_eq!(AudioInfo::format_duration(1_235, 1_000), "00:00:01.24");
    assert_eq!(AudioInfo::format_duration(1_236, 1_000), "00:00:01.24");
}

#[test]
fn never_rounds_the_fraction_into_the_next_second() {
    assert_eq!(AudioInfo::format_duration(1_996, 1_000), "00:00:01.99");
    assert_eq!(AudioInfo::format_duration(59_999, 1_000), "00:00:59.99");
}

#[test]
fn puts_no_bound_on_the_hours() {
    assert_eq!(AudioInfo::format_duration(360_000, 1), "100:00:00.00");
    assert_eq!(
        AudioInfo::format_duration(u64::MAX, 1),
        "5124095576030431:00:15.00"
    );
}

#[test]
fn formats_hundredths_as_they_are() {
    assert_eq!(AudioInfo::format_centiseconds(0), "00:00:00.00");
    assert_eq!(AudioInfo::format_centiseconds(366_150), "01:01:01.50");
    assert_eq!(AudioInfo::format_centiseconds(359_999), "00:59:59.99");
}

#[test]
fn reads_back_what_was_formatted() {
    assert_eq!(AudioInfo::parse_duration("00:00:00.00"), 0);
    assert_eq!(AudioInfo::parse_duration("01:01:01.50"), 366_150);
    assert_eq!(AudioInfo::parse_duration("100:00:00.00"), 36_000_000);
}

#[test]
fn formatting_is_stable_under_reading_back() {
    let cases: [(u64, u32); 6] = [
        (0, 1),
        (7_323, 2),
        (1_996, 1_000),
        (161_472_150, 44_100),
        (12_345_678_901, 96_000),
        (u64::MAX, 1),
    ];
    for (total_samples, sample_rate) in cases {
        let first = AudioInfo::format_duration(total_samples, sample_rate);
        let read = AudioInfo::parse_duration(&first);
        assert_eq!(AudioInfo::format_centiseconds(read), first);
    }
}

#[test]
fn missing_components_count_as_zero() {
    assert_eq!(AudioInfo::parse_duration("2"), 720_000);
    assert_eq!(AudioInfo::parse_duration("0:3"), 18_000);
    assert_eq!(AudioInfo::parse_duration(""), 0);
}

#[test]
fn unparsable_components_count_as_zero() {
    assert_eq!(AudioInfo::parse_duration("xx:01:02.50"), 6_250);
    assert_eq!(AudioInfo::parse_duration("00:-1:02.50"), 250);
    assert_eq!(AudioInfo::parse_duration("00:00:1e2"), 0);
    assert_eq!(AudioInfo::parse_duration("00:00:."), 0);
    assert_eq!(AudioInfo::parse_duration("00:00:1.2.3"), 0);
    assert_eq!(AudioInfo::parse_duration("99999999999999999999:00:01"), 100);
}

#[test]
fn the_fourth_component_is_hundredths_of_a_second() {
    assert_eq!(AudioInfo::parse_duration("0:0:1:50"), 150);
    assert_eq!(AudioInfo::parse_duration("0:0:1:250"), 350);
    assert_eq!(AudioInfo::parse_duration("0:0:1:50:77"), 150);
}

#[test]
fn components_are_read_to_the_hundredth() {
    assert_eq!(AudioInfo::parse_duration("0:0:1.5"), 150);
    assert_eq!(AudioInfo::parse_duration("0:0:1."), 100);
    assert_eq!(AudioInfo::parse_duration("0:0:.5"), 50);
    assert_eq!(AudioInfo::parse_duration("0:0:1.239"), 123);
    assert_eq!(AudioInfo::parse_duration("1.5:0:0"), 540_000);
}

#[test]
fn adds_the_durations_of_two_files() {
    let files = vec![file_lasting("00:00:01.50"), file_lasting("00:00:02.50")];
    assert_eq!(AudioInfo::add_durations(&files), "00:00:04.00");
}

#[test]
fn adds_no_durations_to_zero() {
    assert_eq!(AudioInfo::add_durations(&Vec::new()), "00:00:00.00");
}

#[test]
fn adds_durations_across_the_hour() {
    let files = vec![
        file_lasting("00:59:59.99"),
        file_lasting("00:00:00.01"),
        file_lasting("garbage"),
    ];
    assert_eq!(AudioInfo::add_durations(&files), "01:00:00.00");
}
