use albums::errors::{thumbnail_error, HttpError};
use albums::indexer::{IndexAction, IndexError, IndexEvent, IndexRun, IndexingStatus, MediaRow, WalkedEntry, BATCH_SIZE};
use albums::logger::{after_send, enabled, level_style, writer_step, LogColor, LogLevel, LogMsg, ShutdownState};
use albums::metadata::{
    check_photo_extension, count_photo_files, finish_metadata, is_exif_sideways, is_photo_extension,
    keep_entry, photo_dimensions, to_ascii_lowercase, ExifInfo, MetadataError, PhotoMetadata,
};
use albums::models::{album_from_columns, allocated_size, RowError};
use albums::stats::LibraryStats;
use albums::timestamp::{ExifField, MediaTimestamp, Moment};

#[test]
fn photo_extensions() {
    for e in ["jpg", "jpeg", "tiff", "heif", "heic", "png", "webp"] {
        assert!(is_photo_extension(e));
    }
    assert!(!is_photo_extension("JPG"));
    assert!(!is_photo_extension("mp4"));
    assert_eq!(to_ascii_lowercase("IMG.JpEg"), "img.jpeg");
    assert_eq!(to_ascii_lowercase("Ünïcode"), "Ünïcode".to_ascii_lowercase());
}

#[test]
fn counting_photo_files() {
    let exts = vec![
        Some("JPG".to_string()),
        None,
        Some("mp4".to_string()),
        Some("png".to_string()),
        Some("HeIc".to_string()),
        Some(String::new()),
    ];
    assert_eq!(count_photo_files(&exts), 3);
    assert_eq!(count_photo_files(&vec![]), 0);
}

#[test]
fn hidden_and_system_files_are_skipped() {
    assert!(keep_entry(false, Some(0x2)));
    assert!(keep_entry(true, None));
    assert!(keep_entry(true, Some(0x20)));
    assert!(!keep_entry(true, Some(0x2)));
    assert!(!keep_entry(true, Some(0x4 | 0x20)));
}

#[test]
fn sideways_orientations() {
    assert!(!is_exif_sideways(&None));
    assert!(!is_exif_sideways(&Some(vec![])));
    assert!(!is_exif_sideways(&Some(vec![1])));
    assert!(is_exif_sideways(&Some(vec![5])));
    assert!(is_exif_sideways(&Some(vec![8, 1])));
    assert!(!is_exif_sideways(&Some(vec![9])));
}

#[test]
fn extension_and_dimension_checks() {
    assert!(check_photo_extension("png").is_ok());
    match check_photo_extension("mov") {
        Err(e @ MetadataError::UnsupportedType(_)) => assert_eq!(e.message(), "Unsupported file type mov"),
        _ => panic!("expected UnsupportedType"),
    }
    assert_eq!(photo_dimensions(4000, 3000).ok(), Some((4000, 3000)));
    match photo_dimensions(1 << 31, 10) {
        Err(e @ MetadataError::DimensionOutOfRange) => {
            assert_eq!(e.message(), i32::try_from(1usize << 31).unwrap_err().to_string())
        }
        _ => panic!("expected DimensionOutOfRange"),
    }
    assert_eq!(photo_dimensions(i32::MAX as usize, 1).ok(), Some((i32::MAX, 1)));
}

fn ascii(s: &str) -> ExifField {
    ExifField::Ascii(vec![s.as_bytes().to_vec()])
}

fn exif(orientation: Option<Vec<u16>>, date: ExifField) -> Option<ExifInfo> {
    Some(ExifInfo {
        orientation,
        date_original: date,
        date_digitized: ExifField::Absent,
        offset_original: ExifField::Absent,
        offset_digitized: ExifField::Absent,
    })
}

#[test]
fn metadata_from_exif() {
    let md = finish_metadata("jpg", false, 4000, 3000, &exif(Some(vec![6]), ascii("2021:07:04 12:00:00")), Err("no mtime".to_string()))
        .ok()
        .unwrap();
    assert_eq!((md.width, md.height), (3000, 4000));
    assert_eq!(md.taken_at.to_display_string(), "2021-07-04T12:00:00.000");
}

#[test]
fn heif_sizes_are_not_swapped() {
    let md = finish_metadata("heic", true, 4000, 3000, &exif(Some(vec![6]), ascii("2021:07:04 12:00:00")), Err("no mtime".to_string()))
        .ok()
        .unwrap();
    assert_eq!((md.width, md.height), (4000, 3000));
}

#[test]
fn metadata_falls_back_to_mtime() {
    let mtime = Moment { secs: 1_600_000_000, nanos: 0 };
    let md = finish_metadata("png", false, 10, 20, &exif(Some(vec![8]), ExifField::Absent), Ok(mtime))
        .ok()
        .unwrap();
    assert_eq!((md.width, md.height), (20, 10));
    assert!(matches!(md.taken_at, MediaTimestamp::Utc(m) if m.secs == 1_600_000_000));
    assert_eq!(md.taken_at.to_display_string(), "2020-09-13T12:26:40.000Z");
    let md = finish_metadata("png", false, 10, 20, &None, Ok(mtime)).ok().unwrap();
    assert_eq!((md.width, md.height), (10, 20));
    match finish_metadata("png", false, 10, 20, &None, Err("permission denied".to_string())) {
        Err(e @ MetadataError::ModificationTime(_)) => assert_eq!(e.message(), "permission denied"),
        _ => panic!("expected ModificationTime"),
    }
    match finish_metadata("gif", false, 1, 1, &None, Ok(mtime)) {
        Err(e @ MetadataError::UnsupportedExtension(_)) => {
            assert_eq!(e.message(), "Unsupported media extension '.gif'")
        }
        _ => panic!("expected UnsupportedExtension"),
    }
}

fn walked(name: &str, ext: Option<&str>, is_file: bool, secs: i64) -> WalkedEntry {
    WalkedEntry {
        is_file,
        has_metadata: true,
        extension: ext.map(String::from),
        path: Some(name.to_string()),
        size: 10,
        modified: Ok(Moment { secs, nanos: 0 }),
    }
}

fn photo(secs: i64) -> PhotoMetadata {
    PhotoMetadata { width: 4, height: 3, taken_at: MediaTimestamp::Utc(Moment { secs, nanos: 0 }) }
}

/// Drives one walked entry through the run as the indexer does, with no stored rows.
fn drive(run: &mut IndexRun, status: &mut IndexingStatus, e: WalkedEntry, rows: &mut Vec<MediaRow>) -> IndexAction {
    let mut event = IndexEvent::Walked { stop: false, entry: Some(e) };
    loop {
        assert!(run.accepts(&event));
        let action = run.step(status, event);
        event = match action {
            IndexAction::LookUp { .. } => IndexEvent::Stored(None),
            IndexAction::ReadMetadata { .. } => IndexEvent::MetadataRead {
                metadata: Some(photo(1_600_000_000)),
                now: Moment { secs: 1_700_000_000, nanos: 0 },
            },
            IndexAction::Insert(row) => {
                rows.push(row);
                IndexEvent::Written
            }
            other => return other,
        }
    }
}

#[test]
fn indexing_status_through_a_run() {
    let mut status = IndexingStatus::default();
    assert!(!status.is_indexing && status.total_files == 0 && status.last_indexed.is_none());
    status.last_error = Some("earlier".to_string());
    let mut run = IndexRun::begin(&mut status, 5000);
    assert!(status.is_indexing);
    assert_eq!(status.total_files, 5000);
    assert_eq!(run.inserted(), 0);
    let mut rows = Vec::new();
    let mut commits = 0;
    for i in 0..4500 {
        if matches!(drive(&mut run, &mut status, walked(&format!("p{i}"), Some("JPG"), true, 1_600_000_000), &mut rows), IndexAction::Commit) {
            commits += 1;
        }
    }
    assert_eq!(commits, 4500 / BATCH_SIZE);
    assert_eq!(run.inserted(), 4500);
    assert_eq!(status.indexed_files, 4500);
    assert_eq!(status.last_indexed.as_deref(), Some("p4499"));
    let r = &rows[0];
    assert_eq!((r.path.as_str(), r.size, r.width, r.height, r.missing), ("p0", 10, 4, 3, 0));
    assert_eq!(r.mtime, "2020-09-13T12:26:40.000Z");
    assert_eq!(r.timestamp, "2020-09-13T12:26:40.000Z");
    assert_eq!(r.taken_at, "2020-09-13T12:26:40.000Z");
    assert_eq!(r.indexed_at, "2023-11-14T22:13:20.000Z");
    run.finish(&mut status);
    assert!(!status.is_indexing);
    assert_eq!(status.last_error.as_deref(), Some("earlier"));
}

#[test]
fn only_photo_files_get_rows() {
    let mut status = IndexingStatus::default();
    let mut run = IndexRun::begin(&mut status, 3);
    let mut rows = Vec::new();
    assert!(matches!(drive(&mut run, &mut status, walked("dir.jpg", Some("jpg"), false, 0), &mut rows), IndexAction::Next));
    assert!(matches!(drive(&mut run, &mut status, walked("a.mp4", Some("mp4"), true, 0), &mut rows), IndexAction::Next));
    assert!(matches!(drive(&mut run, &mut status, walked("noext", None, true, 0), &mut rows), IndexAction::Next));
    let mut no_meta = walked("b.jpg", Some("jpg"), true, 0);
    no_meta.has_metadata = false;
    assert!(matches!(drive(&mut run, &mut status, no_meta, &mut rows), IndexAction::Next));
    let mut bad_path = walked("c.jpg", Some("jpg"), true, 0);
    bad_path.path = None;
    assert!(matches!(drive(&mut run, &mut status, bad_path, &mut rows), IndexAction::Fail(IndexError::NonUtf8Path)));
    let mut bad_time = walked("d.txt", Some("txt"), true, 0);
    bad_time.modified = Err("denied".to_string());
    match drive(&mut run, &mut status, bad_time, &mut rows) {
        IndexAction::Fail(IndexError::ModificationTime(m)) => assert_eq!(m, "denied"),
        _ => panic!("expected ModificationTime"),
    }
    assert!(rows.is_empty());
    assert_eq!(status.indexed_files, 0);
}

#[test]
fn stop_flag_ends_the_run_with_nothing_recorded() {
    let mut status = IndexingStatus::default();
    let mut run = IndexRun::begin(&mut status, 1);
    let action = run.step(&mut status, IndexEvent::Walked { stop: true, entry: Some(walked("a.jpg", Some("jpg"), true, 0)) });
    assert!(matches!(action, IndexAction::Stop));
    assert!(matches!(run.step(&mut status, IndexEvent::Walked { stop: false, entry: None }), IndexAction::Fail(IndexError::Walk)));
    run.finish(&mut status);
    assert_eq!((status.indexed_files, status.last_indexed.is_none(), status.is_indexing), (0, true, false));
}

#[test]
fn unchanged_files_are_not_reindexed() {
    let mut status = IndexingStatus::default();
    let mut run = IndexRun::begin(&mut status, 1);
    let action = run.step(&mut status, IndexEvent::Walked { stop: false, entry: Some(walked("a.png", Some("png"), true, 1_600_000_000)) });
    assert!(matches!(action, IndexAction::LookUp { ref path } if path == "a.png"));
    let action = run.step(&mut status, IndexEvent::Stored(Some(("2020-09-13T12:26:40.000Z".to_string(), 10))));
    assert!(matches!(action, IndexAction::Next));
    assert_eq!(status.indexed_files, 0);
    let action = run.step(&mut status, IndexEvent::Walked { stop: false, entry: Some(walked("b.png", Some("png"), true, 1_600_000_000)) });
    assert!(matches!(action, IndexAction::LookUp { .. }));
    let action = run.step(&mut status, IndexEvent::Stored(Some(("2020-09-13T12:26:40.000Z".to_string(), 11))));
    assert!(matches!(action, IndexAction::ReadMetadata { ref extension, .. } if extension == "png"));
    let action = run.step(&mut status, IndexEvent::MetadataRead { metadata: None, now: Moment { secs: 0, nanos: 0 } });
    assert!(matches!(action, IndexAction::Next));
    assert_eq!(status.indexed_files, 0);
}

#[test]
fn reindex_only_changed_files() {
    let mtime = "2024-01-01T00:00:00.000Z".to_string();
    assert!(IndexRun::needs_indexing(&None, &mtime, 10));
    assert!(!IndexRun::needs_indexing(&Some((mtime.clone(), 10)), &mtime, 10));
    assert!(IndexRun::needs_indexing(&Some((mtime.clone(), 11)), &mtime, 10));
    assert!(IndexRun::needs_indexing(&Some(("other".to_string(), 10)), &mtime, 10));
}

#[test]
fn http_errors() {
    let e = HttpError::new(404, "gone".to_string());
    assert_eq!((e.0, e.1.code, e.1.description.as_str()), (404, 404, "gone"));
    let e = HttpError::from_code(500);
    assert_eq!((e.0, e.1.code, e.1.description.as_str()), (500, 500, "Internal Server Error"));
    let e = HttpError::from_code(599);
    assert_eq!(e.1.description, "Unknown error");
    let e = thumbnail_error(true);
    assert_eq!((e.0, e.1.description.as_str()), (404, "Thumbnail not found"));
    let e = thumbnail_error(false);
    assert_eq!((e.0, e.1.description.as_str()), (500, "Error accessing thumbnail"));
}

#[test]
fn albums_from_rows() {
    let a = album_from_columns(3, "Trip".to_string(), "2024-02-03T04:05:06Z", 12, 99, Some(41)).ok().unwrap();
    assert_eq!(a.cover_id, Some(41));
    assert_eq!((a.id, a.title.as_str(), a.media_count, a.latest_photo_at), (3, "Trip", 12, 99));
    assert_eq!(a.created_at.secs, 1706933106);
    assert!(matches!(album_from_columns(1, String::new(), "not a date", 0, 0, None), Err(RowError::InvalidType)));
}

#[test]
fn system_stats() {
    let s = LibraryStats::from_counts(10, 2048, 1, 4096);
    assert_eq!(
        (s.total_count, s.total_size_bytes, s.photos_count, s.videos_count, s.missing_files, s.db_size_bytes),
        (10, 2048, 0, 0, 1, 4096)
    );
}

#[test]
fn logger_decisions() {
    assert!(matches!(level_style(LogLevel::Error), (LogColor::Red, true)));
    assert!(matches!(level_style(LogLevel::Warn), (LogColor::Yellow, false)));
    assert!(matches!(level_style(LogLevel::Info), (LogColor::Green, false)));
    assert!(matches!(level_style(LogLevel::Debug), (LogColor::Blue, false)));
    assert!(matches!(level_style(LogLevel::Trace), (LogColor::Cyan, false)));
    assert!(enabled(LogLevel::Trace));
    assert_eq!(after_send(3, true), 4);
    assert_eq!(after_send(3, false), 3);
    assert_eq!(after_send(usize::MAX, true), 0);
    let s = writer_step(2, LogMsg::Message("hi".to_string()));
    assert_eq!(s.report_dropped, Some(2));
    assert_eq!(s.write.as_deref(), Some("hi"));
    assert!(!s.flush && !s.stop && !s.respond);
    let s = writer_step(0, LogMsg::Shutdown);
    assert!(s.report_dropped.is_none() && s.flush && s.stop && !s.respond && s.write.is_none());
    let s = writer_step(0, LogMsg::Flush);
    assert!(s.flush && s.respond && !s.stop);
    let mut h = ShutdownState::new();
    assert!(h.on_drop());
    assert!(h.shutdown());
    assert!(!h.shutdown());
    assert!(!h.on_drop());
}

#[test]
fn allocated_sizes() {
    assert_eq!(allocated_size(24, 100, 3, &vec![5, 7]), Some(24 + 300 + 12));
    assert_eq!(allocated_size(24, 100, 0, &vec![]), Some(24));
    assert_eq!(allocated_size(1, usize::MAX, 2, &vec![]), None);
    assert_eq!(allocated_size(usize::MAX - 1, 0, 0, &vec![1, 1]), None);
}

#[test]
fn writer_handles_a_stream_in_order() {
    let stream = vec![
        (0, LogMsg::Message("a".to_string())),
        (3, LogMsg::Flush),
        (0, LogMsg::Message("b".to_string())),
        (1, LogMsg::Shutdown),
        (0, LogMsg::Message("late".to_string())),
    ];
    let mut written = Vec::new();
    let mut reports = Vec::new();
    for (d, m) in stream {
        let st = writer_step(d, m);
        if let Some(n) = st.report_dropped {
            reports.push(n);
        }
        if let Some(t) = st.write {
            written.push(t);
        }
        if st.stop {
            break;
        }
    }
    assert_eq!(written, vec!["a".to_string(), "b".to_string()]);
    assert_eq!(reports, vec![3, 1]);
}
