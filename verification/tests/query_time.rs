use albums::query::{
    get_order_by, is_valid_sort_field, parse_sort_options, plan_media_query, resolve_media_params,
    MediaQueryParams, QueryError, SortOptions, SortOrder,
};
use albums::timestamp::{get_exif_timestamp, parse_offset, ExifField, MediaTimestamp, TimestampError};

fn opts(by: &str, order: SortOrder) -> Option<SortOptions> {
    Some(SortOptions { sort_by: by.to_string(), sort_order: order })
}

#[test]
fn sort_fields_ignore_case() {
    assert!(is_valid_sort_field("timestamp"));
    assert!(is_valid_sort_field("TimeStamp"));
    assert!(is_valid_sort_field("indexed_at"));
    assert!(!is_valid_sort_field("title"));
    assert!(!is_valid_sort_field("id; DROP TABLE media"));
    assert!(!is_valid_sort_field(""));
}

#[test]
fn order_by_clause() {
    assert_eq!(get_order_by(&None).ok().unwrap(), "");
    assert_eq!(get_order_by(&opts("width", SortOrder::Asc)).ok().unwrap(), " ORDER BY m.width ASC");
    assert_eq!(get_order_by(&opts("Width", SortOrder::Desc)).ok().unwrap(), " ORDER BY m.Width DESC");
    match get_order_by(&opts("title", SortOrder::Asc)) {
        Err(QueryError::InvalidSortField(f)) => assert_eq!(f, "title"),
        _ => panic!("expected an invalid sort field"),
    }
}

#[test]
fn invalid_sort_field_message() {
    let e = QueryError::InvalidSortField("title".to_string());
    assert_eq!(e.message(), "Invalid sort field title");
}

#[test]
fn plan_all_media_full_rows() {
    let q = plan_media_query(None, 0, None, None, false).ok().unwrap();
    assert_eq!(
        q.sql,
        "SELECT m.id, m.path, m.size, m.mtime, m.timestamp, m.indexed_at, m.taken_at, m.width, m.height, m.duration, m.missing FROM media m LIMIT ?1 OFFSET ?2;"
    );
    assert_eq!(q.params, vec![-1, 0]);
    assert!(!q.layout_only);
}

#[test]
fn plan_album_layout_sorted() {
    let q = plan_media_query(Some(50), 200, Some(7), opts("timestamp", SortOrder::Desc), true).ok().unwrap();
    assert_eq!(
        q.sql,
        "SELECT m.id, m.width, m.height, m.timestamp FROM media m INNER JOIN album_media am ON m.id = am.media_id WHERE am.album_id = ?3 ORDER BY m.timestamp DESC LIMIT ?1 OFFSET ?2;"
    );
    assert_eq!(q.params, vec![50, 200, 7]);
    assert!(q.layout_only);
}

#[test]
fn plan_rejects_unknown_sort_column() {
    assert!(matches!(
        plan_media_query(Some(10), 0, None, opts("name", SortOrder::Asc), false),
        Err(QueryError::InvalidSortField(_))
    ));
}

#[test]
fn sort_option_parsing() {
    assert!(parse_sort_options(None).is_none());
    let o = parse_sort_options(Some("-timestamp".to_string())).unwrap();
    assert_eq!(o.sort_by, "timestamp");
    assert!(matches!(o.sort_order, SortOrder::Desc));
    let o = parse_sort_options(Some("size".to_string())).unwrap();
    assert_eq!(o.sort_by, "size");
    assert!(matches!(o.sort_order, SortOrder::Asc));
    let o = parse_sort_options(Some("-".to_string())).unwrap();
    assert_eq!(o.sort_by, "");
    assert!(matches!(o.sort_order, SortOrder::Desc));
    let o = parse_sort_options(Some(String::new())).unwrap();
    assert_eq!(o.sort_by, "");
    assert!(matches!(o.sort_order, SortOrder::Asc));
}

#[test]
fn media_params_defaults() {
    let r = resolve_media_params(MediaQueryParams { limit: None, offset: None, sort: None, layout: None }, None);
    assert_eq!((r.limit, r.offset, r.layout), (None, 0, false));
    assert_eq!((r.pagination.limit, r.pagination.offset), (None, 0));
    let r = resolve_media_params(MediaQueryParams { limit: None, offset: None, sort: None, layout: None }, Some(3));
    assert!(r.layout);
    assert!(r.sort_options.is_none());
    let r = resolve_media_params(MediaQueryParams {
        limit: Some(20),
        offset: Some(40),
        sort: Some("-size".to_string()),
        layout: Some(true),
    }, None);
    assert_eq!((r.limit, r.offset, r.layout), (Some(20), 40, true));
    assert_eq!((r.pagination.limit, r.pagination.offset), (Some(20), 40));
    let o = r.sort_options.unwrap();
    assert_eq!(o.sort_by, "size");
    assert!(matches!(o.sort_order, SortOrder::Desc));
}

fn parse(s: &str) -> MediaTimestamp {
    match MediaTimestamp::from_str(s) {
        Ok(t) => t,
        Err(e) => panic!("{}", e.message()),
    }
}

#[test]
fn utc_timestamps() {
    let t = parse("2024-05-01T10:20:30Z");
    assert!(matches!(t, MediaTimestamp::Utc(_)));
    assert!(t.is_valid());
    assert_eq!(t.to_display_string(), "2024-05-01T10:20:30.000Z");
    assert_eq!(t.to_normalized_utc_string(), "2024-05-01T10:20:30.000Z");
}

#[test]
fn offset_timestamps_normalize_to_utc() {
    let t = parse("2024-05-01T10:20:30.250+02:00");
    match t {
        MediaTimestamp::WithOffset(m, off) => {
            assert_eq!(off, 7200);
            assert_eq!(m.secs, 1714551630);
            assert_eq!(m.nanos, 250_000_000);
        }
        _ => panic!("expected an offset timestamp"),
    }
    assert_eq!(t.to_display_string(), "2024-05-01T10:20:30.250+02:00");
    assert_eq!(t.to_normalized_utc_string(), "2024-05-01T08:20:30.250Z");
}

#[test]
fn naive_timestamps_are_read_as_utc() {
    let t = parse("2024-05-01T10:20:30");
    assert!(matches!(t, MediaTimestamp::Naive(_)));
    assert_eq!(t.to_display_string(), "2024-05-01T10:20:30.000");
    assert_eq!(t.to_normalized_utc_string(), "2024-05-01T10:20:30.000Z");
    let t = parse("2024-05-01T10:20:30.5");
    assert!(matches!(t, MediaTimestamp::Naive(_)));
    assert_eq!(t.to_display_string(), "2024-05-01T10:20:30.500");
}

#[test]
fn normalized_equals_utc_display_of_same_instant() {
    for s in ["2024-05-01T10:20:30Z", "2024-05-01T10:20:30-05:30", "1999-12-31T23:59:59"] {
        let t = parse(s);
        let m = match t {
            MediaTimestamp::Naive(m) | MediaTimestamp::Utc(m) | MediaTimestamp::WithOffset(m, _) => m,
        };
        assert_eq!(t.to_normalized_utc_string(), MediaTimestamp::Utc(m).to_display_string());
    }
}

#[test]
fn bad_timestamps() {
    match MediaTimestamp::from_str("yesterday") {
        Err(e @ TimestampError::Invalid(_)) => {
            assert_eq!(e.message(), "Invalid MediaTimestamp 'yesterday'")
        }
        _ => panic!("expected Invalid"),
    }
    match MediaTimestamp::from_str("2024-13-01T00:00:00Z") {
        Err(e @ TimestampError::BadUtc(_)) => assert_eq!(
            e.message(),
            "2024-13-01T00:00:00Z".parse::<chrono::DateTime<chrono::Utc>>().unwrap_err().to_string()
        ),
        _ => panic!("expected BadUtc"),
    }
    assert!(matches!(MediaTimestamp::from_str(""), Err(TimestampError::Invalid(_))));
}

#[test]
fn offsets() {
    assert_eq!(parse_offset("+02:00"), Some(7200));
    assert_eq!(parse_offset("-05:30"), Some(-19800));
    assert_eq!(parse_offset("+00:00"), Some(0));
    assert_eq!(parse_offset("+2:00"), None);
    assert_eq!(parse_offset("02:00x"), None);
    assert_eq!(parse_offset("+02-00"), None);
    assert_eq!(parse_offset("+24:00"), None);
    assert_eq!(parse_offset("+23:59"), Some(86340));
    assert_eq!(parse_offset("++2:00"), Some(7200));
    assert_eq!(parse_offset("+-2:00"), Some(-7200));
    assert_eq!(parse_offset(""), None);
}

fn ascii(s: &str) -> ExifField {
    ExifField::Ascii(vec![s.as_bytes().to_vec()])
}

#[test]
fn exif_timestamp_with_offset() {
    let t = get_exif_timestamp(&ascii("2024:05:01 10:20:30"), &ExifField::Absent, &ascii("+02:00"), &ExifField::Absent)
        .unwrap();
    assert!(matches!(t, MediaTimestamp::WithOffset(_, 7200)));
    assert_eq!(t.to_display_string(), "2024-05-01T10:20:30.000+02:00");
    assert_eq!(t.to_normalized_utc_string(), "2024-05-01T08:20:30.000Z");
}

#[test]
fn exif_timestamp_falls_back_to_digitized_and_naive() {
    let t = get_exif_timestamp(&ExifField::Absent, &ascii("2020:01:02 03:04:05"), &ExifField::Absent, &ascii("bad"))
        .unwrap();
    assert!(matches!(t, MediaTimestamp::Naive(_)));
    assert_eq!(t.to_display_string(), "2020-01-02T03:04:05.000");
}

#[test]
fn exif_timestamp_missing_or_malformed() {
    let none = get_exif_timestamp(&ExifField::Absent, &ExifField::Absent, &ExifField::Absent, &ExifField::Absent);
    assert!(none.is_none());
    // a present original field of another kind hides the digitized one
    let other = get_exif_timestamp(&ExifField::Other, &ascii("2020:01:02 03:04:05"), &ExifField::Absent, &ExifField::Absent);
    assert!(other.is_none());
    let empty = get_exif_timestamp(&ExifField::Ascii(vec![]), &ExifField::Absent, &ExifField::Absent, &ExifField::Absent);
    assert!(empty.is_none());
    let bad = get_exif_timestamp(&ascii("2020-01-02 03:04:05"), &ExifField::Absent, &ExifField::Absent, &ExifField::Absent);
    assert!(bad.is_none());
    let not_utf8 = get_exif_timestamp(&ExifField::Ascii(vec![vec![0xff, 0xfe]]), &ExifField::Absent, &ExifField::Absent, &ExifField::Absent);
    assert!(not_utf8.is_none());
}
