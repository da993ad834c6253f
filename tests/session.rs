use mcfrier::adapter::{FsError, NodeKind, FILE_INO, ROOT_INO};
use mcfrier::command::{Command, Op};
use mcfrier::response::{format_ok, ResultBuffer};
use mcfrier::session::{bucket_count_for, lookup_report, run_insert_seq, run_lookup_seq, McFrierFS};

fn text(v: &[u8]) -> String {
    String::from_utf8(v.to_vec()).unwrap()
}

/// Whether `s` is "OK <digits>.<six digits>\n".
fn is_ok_report(s: &str) -> bool {
    let Some(rest) = s.strip_prefix("OK ") else { return false };
    let Some(num) = rest.strip_suffix('\n') else { return false };
    let Some((whole, frac)) = num.split_once('.') else { return false };
    !whole.is_empty()
        && whole.bytes().all(|b| b.is_ascii_digit())
        && frac.len() == 6
        && frac.bytes().all(|b| b.is_ascii_digit())
}

#[test]
fn fresh_session_reads_ready() {
    let fs = McFrierFS::new();
    assert_eq!(text(&fs.read(FILE_INO, 0).unwrap()), "READY\n");
    assert_eq!(fs.file_size(), 6);
    assert_eq!(fs.table_size(), None);
}

#[test]
fn insert_zero_reports_ok_and_empty_table() {
    let mut fs = McFrierFS::new();
    assert_eq!(fs.write(FILE_INO, b"INSERT_SEQ 0\n"), Ok(13));
    let out = text(&fs.read(FILE_INO, 0).unwrap());
    assert!(is_ok_report(&out), "{:?}", out);
    assert!(out.starts_with("OK 0.0"), "{:?}", out);
    assert_eq!(fs.table_size(), Some(0));
}

#[test]
fn insert_then_lookup_reports_ok() {
    let mut fs = McFrierFS::new();
    assert_eq!(fs.write(FILE_INO, b"INSERT_SEQ 1000\n"), Ok(16));
    assert_eq!(fs.write(FILE_INO, b"LOOKUP_SEQ 1000\n"), Ok(16));
    let out = text(&fs.read(FILE_INO, 0).unwrap());
    assert!(out.starts_with("OK "));
    assert!(is_ok_report(&out), "{:?}", out);
    assert_eq!(fs.table_size(), Some(1000));
    for k in 0..1000i64 {
        assert_eq!(fs.table_lookup(k), Some(2 * k));
    }
    assert_eq!(fs.table_lookup(1000), None);
    assert_eq!(fs.table_lookup(-1), None);
}

#[test]
fn lookup_before_insert_reports_no_table() {
    let mut fs = McFrierFS::new();
    assert_eq!(fs.write(FILE_INO, b"LOOKUP_SEQ 5\n"), Ok(13));
    assert_eq!(text(&fs.read(FILE_INO, 0).unwrap()), "ERROR NO_TABLE\n");
    assert_eq!(fs.table_size(), None);
    // Still no table for the next lookup.
    assert_eq!(fs.write(FILE_INO, b"FOO 1\n"), Ok(6));
    assert_eq!(fs.write(FILE_INO, b"LOOKUP_SEQ 0\n"), Ok(13));
    assert_eq!(text(&fs.read(FILE_INO, 0).unwrap()), "ERROR NO_TABLE\n");
    // An insertion run ends it.
    assert_eq!(fs.write(FILE_INO, b"INSERT_SEQ 3\n"), Ok(13));
    assert_eq!(fs.write(FILE_INO, b"LOOKUP_SEQ 3\n"), Ok(13));
    assert!(is_ok_report(&text(&fs.read(FILE_INO, 0).unwrap())));
}

#[test]
fn empty_write_fails_and_keeps_buffer() {
    let mut fs = McFrierFS::new();
    assert_eq!(fs.write(FILE_INO, b""), Err(FsError::Io));
    assert_eq!(text(&fs.read(FILE_INO, 0).unwrap()), "READY\n");
    assert_eq!(fs.write(FILE_INO, b"LOOKUP_SEQ 1"), Ok(12));
    assert_eq!(fs.write(FILE_INO, b"   \n"), Err(FsError::Io));
    assert_eq!(text(&fs.read(FILE_INO, 0).unwrap()), "ERROR NO_TABLE\n");
}

#[test]
fn unknown_operation_succeeds_without_effect() {
    let mut fs = McFrierFS::new();
    assert_eq!(fs.write(FILE_INO, b"FOO 10"), Ok(6));
    assert_eq!(fs.write(FILE_INO, b"FOO 10\n"), Ok(7));
    assert_eq!(text(&fs.read(FILE_INO, 0).unwrap()), "READY\n");
    assert_eq!(fs.table_size(), None);
    fs.write(FILE_INO, b"INSERT_SEQ 2").unwrap();
    let before = fs.read(FILE_INO, 0).unwrap();
    assert_eq!(fs.write(FILE_INO, b"FOO 10\n"), Ok(7));
    assert_eq!(fs.read(FILE_INO, 0).unwrap(), before);
    assert_eq!(fs.table_size(), Some(2));
}

#[test]
fn reinsert_run_replaces_table() {
    let mut fs = McFrierFS::new();
    fs.write(FILE_INO, b"INSERT_SEQ 10").unwrap();
    fs.write(FILE_INO, b"INSERT_SEQ 4").unwrap();
    assert_eq!(fs.table_size(), Some(4));
    assert_eq!(fs.table_lookup(3), Some(6));
    assert_eq!(fs.table_lookup(4), None);
}

#[test]
fn directory_listing_has_three_entries() {
    let fs = McFrierFS::new();
    for _ in 0..2 {
        let entries = fs.readdir(ROOT_INO, 0).unwrap();
        assert_eq!(entries.len(), 3);
        assert_eq!(entries[0].name, b".".to_vec());
        assert_eq!(entries[0].ino, ROOT_INO);
        assert_eq!(entries[0].kind, NodeKind::Directory);
        assert_eq!(entries[1].name, b"..".to_vec());
        assert_eq!(entries[1].offset, 1);
        assert_eq!(entries[2].name, b"mcfrier".to_vec());
        assert_eq!(entries[2].ino, FILE_INO);
        assert_eq!(entries[2].kind, NodeKind::RegularFile);
        assert_eq!(entries[2].offset, 2);
    }
    assert_eq!(fs.readdir(ROOT_INO, 3).unwrap().len(), 0);
    assert!(matches!(fs.readdir(FILE_INO, 0), Err(FsError::NotFound)));
}

#[test]
fn read_past_end_is_empty() {
    let mut fs = McFrierFS::new();
    assert_eq!(fs.read(FILE_INO, 6), Ok(vec![]));
    assert_eq!(fs.read(FILE_INO, 100), Ok(vec![]));
    assert_eq!(fs.read(FILE_INO, -1), Ok(vec![]));
    assert_eq!(text(&fs.read(FILE_INO, 2).unwrap()), "ADY\n");
    fs.write(FILE_INO, b"LOOKUP_SEQ 1").unwrap();
    assert_eq!(fs.read(FILE_INO, 15), Ok(vec![]));
    assert_eq!(text(&fs.read(FILE_INO, 14).unwrap()), "\n");
    assert_eq!(fs.read(ROOT_INO, 0), Err(FsError::NotFound));
}

#[test]
fn result_buffer_reads_and_replaces() {
    let mut b = ResultBuffer::new();
    assert_eq!(b.len(), 6);
    assert_eq!(b.read_at(0), b"READY\n".to_vec());
    assert_eq!(b.read_at(i64::MAX), Vec::<u8>::new());
    b.replace(b"xyz".to_vec());
    assert_eq!(b.len(), 3);
    assert_eq!(b.read_at(1), b"yz".to_vec());
    assert_eq!(b.read_at(3), Vec::<u8>::new());
}

#[test]
fn wrong_inodes_are_not_found() {
    let mut fs = McFrierFS::new();
    assert_eq!(fs.write(7, b"INSERT_SEQ 1"), Err(FsError::NotFound));
    assert_eq!(fs.table_size(), None);
    assert!(fs.getattr(9, 0, 0).is_err());
    assert!(fs.open(ROOT_INO).is_err());
    assert!(fs.lookup(2, b"mcfrier", 0, 0).is_err());
    assert!(fs.lookup(ROOT_INO, b"other", 0, 0).is_err());
}

#[test]
fn attributes_follow_buffer_length() {
    let mut fs = McFrierFS::new();
    let a = fs.lookup(ROOT_INO, b"mcfrier", 1000, 100).unwrap();
    assert_eq!(a.ino, FILE_INO);
    assert_eq!(a.size, 6);
    assert_eq!(a.perm, 0o666);
    assert_eq!(a.nlink, 1);
    assert_eq!(a.uid, 1000);
    assert_eq!(a.gid, 100);
    assert_eq!(a.kind, NodeKind::RegularFile);
    fs.write(FILE_INO, b"LOOKUP_SEQ 1").unwrap();
    assert_eq!(fs.getattr(FILE_INO, 0, 0).unwrap().size, 15);
    let d = fs.getattr(ROOT_INO, 5, 6).unwrap();
    assert_eq!(d.kind, NodeKind::Directory);
    assert_eq!(d.perm, 0o755);
    assert_eq!(d.nlink, 2);
    assert_eq!(d.size, 0);
    assert_eq!(d.blksize, 512);
    assert_eq!(fs.open(FILE_INO), Ok((0, 1)));
}

#[test]
fn ok_report_has_six_decimals() {
    assert_eq!(text(&format_ok(0, 0)), "OK 0.000000\n");
    assert_eq!(text(&format_ok(12, 345_678_000)), "OK 12.345678\n");
    assert_eq!(text(&format_ok(1, 500)), "OK 1.000001\n");
    assert_eq!(text(&format_ok(1, 499)), "OK 1.000000\n");
    assert_eq!(text(&format_ok(2, 999_999_600)), "OK 3.000000\n");
    assert_eq!(text(&format_ok(u64::MAX, 999_999_999)), "OK 18446744073709551616.000000\n");
}

#[test]
fn ok_report_matches_float_format() {
    for (s, n) in [(0u64, 123_456_789u32), (3, 5_000), (7, 900_000_000), (0, 1_000)] {
        let secs = s as f64 + n as f64 / 1e9;
        assert_eq!(text(&format_ok(s, n)), format!("OK {:.6}\n", secs));
    }
}

#[test]
fn bucket_counts_follow_policy() {
    assert_eq!(bucket_count_for(0), 1024);
    assert_eq!(bucket_count_for(2048), 1024);
    assert_eq!(bucket_count_for(2050), 1025);
    assert_eq!(bucket_count_for(5000), 2500);
    assert_eq!(bucket_count_for(-1), usize::MAX / 2);
}

#[test]
fn runs_build_and_time() {
    let (t, report) = run_insert_seq(10);
    assert_eq!(t.size(), 10);
    assert_eq!(t.bucket_count(), 1024);
    assert_eq!(t.mc_lookup(9), Some(18));
    assert!(is_ok_report(&text(&report)));
    assert!(is_ok_report(&text(&run_lookup_seq(&t, 10))));
    let (empty, _) = run_insert_seq(0);
    assert_eq!(empty.size(), 0);
    assert_eq!(empty.mc_lookup(0), None);
    assert_eq!(text(&lookup_report(&None, 4)), "ERROR NO_TABLE\n");
    assert!(is_ok_report(&text(&lookup_report(&Some(t), 4))));
}

#[test]
fn run_command_dispatches() {
    let mut fs = McFrierFS::new();
    fs.run_command(Command { op: Op::LookupSeq, count: 2 });
    assert_eq!(text(&fs.read(FILE_INO, 0).unwrap()), "ERROR NO_TABLE\n");
    fs.run_command(Command { op: Op::InsertSeq, count: 2 });
    assert_eq!(fs.table_lookup(1), Some(2));
}
