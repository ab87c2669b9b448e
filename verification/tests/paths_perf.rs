use albums::paths::{format_hex, get_sharded_path, shard_dir_name, shard_file_name};
use albums::perf::{Perf, MAX_DURATION_NANOS};
use std::path::PathBuf;

#[test]
fn hex_is_zero_padded_lowercase() {
    assert_eq!(format_hex(0x1234, 8), "00001234");
    assert_eq!(format_hex(0, 2), "00");
    assert_eq!(format_hex(0xab, 2), "ab");
    assert_eq!(format_hex(0xdeadbeefcafe, 8), "deadbeefcafe");
    assert_eq!(format_hex(u64::MAX, 8), "ffffffffffffffff");
    assert_eq!(format_hex(7, 0), "7");
}

#[test]
fn shard_names_follow_the_id() {
    assert_eq!(shard_dir_name(0x1234), "34");
    assert_eq!(shard_dir_name(5), "05");
    assert_eq!(shard_file_name(0x1234, ".jpg"), "00001234.jpg");
    assert_eq!(shard_file_name(0x1_0000_00ff, ".jpg"), "1000000ff.jpg");
}

#[test]
fn shard_dir_is_last_two_digits_of_file_name() {
    for id in [0u64, 1, 0xff, 0x100, 0x1234, 0xabcdef, u64::MAX] {
        let file = shard_file_name(id, "");
        assert_eq!(shard_dir_name(id), file[file.len() - 2..]);
    }
}

#[test]
fn sharded_path_joins_base_shard_and_file() {
    let base = PathBuf::from("thumbs");
    let p = get_sharded_path(base.clone(), 0x1234, ".jpg");
    assert_eq!(p.base, base);
    assert_eq!((p.dir.as_str(), p.file.as_str()), ("34", "00001234.jpg"));
    let big = get_sharded_path(PathBuf::from("t"), 0x1_0000_00ab, ".jpg");
    assert_eq!((big.dir.as_str(), big.file.as_str()), ("ab", "1000000ab.jpg"));
}

fn total(p: &Perf, label: &str) -> Option<u128> {
    p.totals().iter().find(|(k, _)| k == label).map(|(_, v)| *v)
}

#[test]
fn perf_accumulates_per_label() {
    let mut p = Perf::new();
    assert!(p.totals().is_empty());
    p.accumulate("decode", 5);
    p.accumulate("decode", 7);
    p.accumulate("resize", 1);
    assert_eq!(total(&p, "decode"), Some(12));
    assert_eq!(total(&p, "resize"), Some(1));
    assert_eq!(p.totals().len(), 2);
}

#[test]
fn perf_accumulate_up_to_duration_max() {
    let mut p = Perf::new();
    p.accumulate("x", MAX_DURATION_NANOS - 10);
    p.accumulate("x", 10);
    assert_eq!(total(&p, "x"), Some(MAX_DURATION_NANOS));
    assert_eq!(MAX_DURATION_NANOS, std::time::Duration::MAX.as_nanos());
}

#[test]
fn perf_insert_replaces_and_returns_previous() {
    let mut p = Perf::new();
    assert_eq!(p.insert("total".to_string(), 40), None);
    assert_eq!(p.insert("total".to_string(), 3), Some(40));
    assert_eq!(total(&p, "total"), Some(3));
}

#[test]
fn perf_add_merges_label_by_label() {
    let mut a = Perf::new();
    a.accumulate("x", 1);
    a.accumulate("y", 2);
    let mut b = Perf::new();
    b.accumulate("y", 10);
    b.accumulate("z", 20);
    a.add(&b);
    assert_eq!(total(&a, "x"), Some(1));
    assert_eq!(total(&a, "y"), Some(12));
    assert_eq!(total(&a, "z"), Some(20));
    assert_eq!(a.totals().len(), 3);
    // merging the other way gives the same totals
    let mut c = Perf::new();
    c.accumulate("y", 10);
    c.accumulate("z", 20);
    let mut d = Perf::new();
    d.accumulate("x", 1);
    d.accumulate("y", 2);
    c.add(&d);
    for l in ["x", "y", "z"] {
        assert_eq!(total(&a, l), total(&c, l));
    }
}

#[test]
fn perf_add_of_empty_changes_nothing() {
    let mut a = Perf::new();
    a.accumulate("x", 9);
    a.add(&Perf::new());
    assert_eq!(total(&a, "x"), Some(9));
    assert_eq!(a.totals().len(), 1);
}

#[test]
fn perf_time_runs_the_closure_and_records() {
    let mut p = Perf::new();
    let v = p.time("work", || 41 + 1);
    assert_eq!(v, 42);
    assert!(total(&p, "work").is_some());
    let before = total(&p, "work").unwrap();
    p.time("work", || ());
    assert!(total(&p, "work").unwrap() >= before);
}

#[test]
fn perf_start_end_records_elapsed() {
    let mut p = Perf::new();
    p.start("scan".to_string());
    let t0 = std::time::Instant::now();
    while t0.elapsed() < std::time::Duration::from_millis(2) {}
    let e = p.end("scan".to_string());
    assert!(e >= 2_000_000);
    assert_eq!(total(&p, "scan"), Some(e));
    let e2 = p.end("scan".to_string());
    assert!(e2 >= e);
    assert_eq!(total(&p, "scan"), Some(e + e2));
}

#[test]
fn perf_add_groups_freely() {
    let mk = |pairs: &[(&str, u128)]| {
        let mut p = Perf::new();
        for (k, v) in pairs {
            p.accumulate(k, *v);
        }
        p
    };
    let (a, b, c) = (&[("x", 1u128), ("y", 2)][..], &[("y", 3u128)][..], &[("x", 4u128), ("z", 5)][..]);
    let mut left = mk(a);
    left.add(&mk(b));
    left.add(&mk(c));
    let mut bc = mk(b);
    bc.add(&mk(c));
    let mut right = mk(a);
    right.add(&bc);
    for l in ["x", "y", "z"] {
        assert_eq!(total(&left, l), total(&right, l));
    }
    assert_eq!(total(&left, "x"), Some(5));
    assert_eq!(total(&left, "y"), Some(5));
}

#[test]
fn file_names_read_back_and_differ() {
    for id in [0u64, 1, 0xff, 0x1234, 0xffff_ffff, 0x1_0000_0000, u64::MAX] {
        assert_eq!(u64::from_str_radix(&format_hex(id, 8), 16).unwrap(), id);
    }
    assert_ne!(shard_file_name(1, ".jpg"), shard_file_name(0x10, ".jpg"));
    assert_ne!(shard_file_name(0x100, ".jpg"), shard_file_name(0x1000, ".jpg"));
}

#[test]
fn perf_start_at_restarts_the_clock() {
    let mut p = Perf::new();
    let early = std::time::Instant::now();
    p.start_at("x".to_string(), early);
    let t0 = std::time::Instant::now();
    while t0.elapsed() < std::time::Duration::from_millis(3) {}
    p.start_at("x".to_string(), std::time::Instant::now());
    let e = p.end("x".to_string());
    assert!(e < early.elapsed().as_nanos());
}
