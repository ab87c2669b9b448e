use albums::serving::file_headers;
use albums::timestamp::{file_time_text, MediaTimestamp, Moment};

#[test]
fn served_files_are_cached_and_typed() {
    let h = file_headers(Some("jpg"));
    assert_eq!(h.cache_control, "public, max-age=31536000, immutable");
    assert_eq!(h.content_type.as_deref(), Some("image/jpeg"));
    assert_eq!(file_headers(Some("PNG")).content_type.as_deref(), Some("image/png"));
    assert_eq!(file_headers(Some("")).content_type, None);
    assert_eq!(file_headers(Some("nosuchext")).content_type, None);
    let h = file_headers(None);
    assert_eq!(h.content_type, None);
    assert_eq!(h.cache_control, "public, max-age=31536000, immutable");
}

#[test]
fn file_times_are_written_to_the_millisecond() {
    let m = Moment { secs: 1_600_000_000, nanos: 123_456_789 };
    assert_eq!(file_time_text(m).as_deref(), Some("2020-09-13T12:26:40.123Z"));
    assert_eq!(file_time_text(Moment { secs: i64::MAX, nanos: 0 }), None);
    assert_eq!(file_time_text(Moment { secs: 0, nanos: 2_000_000_000 }), None);
}

#[test]
fn out_of_range_timestamps_are_not_valid() {
    assert!(!MediaTimestamp::Utc(Moment { secs: i64::MAX, nanos: 0 }).is_valid());
    assert!(!MediaTimestamp::WithOffset(Moment { secs: 0, nanos: 0 }, 86_400).is_valid());
    assert!(MediaTimestamp::WithOffset(Moment { secs: 0, nanos: 0 }, 86_399).is_valid());
    assert!(MediaTimestamp::Naive(Moment { secs: 0, nanos: 0 }).is_valid());
}

#[test]
fn timestamps_parse_through_from_str_trait() {
    let t: MediaTimestamp = "2024-05-01T10:20:30+02:00".parse().ok().unwrap();
    assert!(matches!(t, MediaTimestamp::WithOffset(_, 7200)));
}
