use tbg_lite::restoremap::{
    data_dir_is_local, migrate_legacy, parse, serialize, status, tmp_path, MapFile, MapStatus,
    RestoreMap, SavePlan, MAP_FILE_NAME, MAP_HEADER,
};

fn empty() -> RestoreMap {
    match RestoreMap::load(&MapFile::Absent) {
        Ok(m) => m,
        Err(e) => panic!("{}", e),
    }
}

fn text(s: &str) -> MapFile {
    MapFile::Text(s.to_string())
}

fn saved(m: &RestoreMap) -> String {
    match m.save() {
        SavePlan::Write(t) => t,
        SavePlan::RemoveFile => panic!("a map with entries is written"),
    }
}

#[test]
fn record_take_roundtrip_and_hwnd_reuse_guard() {
    let mut m = empty();
    assert!(m.is_empty());
    m.record(0x20176, "TBG.Group.work", "Microsoft.Notepad");
    m.record(0x30148, "TBG.Group.work", "");
    assert_eq!(m.take(0x20176, "TBG.Group.work").unwrap(), "Microsoft.Notepad");
    assert_eq!(m.take(0x30148, "TBG.Group.work").unwrap(), "");
    assert_eq!(m.take(0x99999, "TBG.Group.work"), None);
    assert_eq!(m.take(0x20176, "TBG.Group.work"), None);
    m.record(0x500AC, "TBG.Group.a", "App.A");
    assert_eq!(m.take(0x500AC, "TBG.Group.b"), None);
    assert_eq!(m.take(0x500AC, "TBG.Group.a").unwrap(), "App.A");
}

#[test]
fn peek_does_not_remove() {
    let mut m = empty();
    m.record(0x123, "TBG.Group.work", "Orig");
    assert_eq!(m.peek(0x123, "TBG.Group.work").unwrap(), "Orig");
    assert_eq!(m.len(), 1);
    assert_eq!(m.peek(0x123, "TBG.Group.other"), None);
    assert_eq!(m.peek(0x456, "TBG.Group.work"), None);
}

#[test]
fn save_load_roundtrip_with_header() {
    let mut m = empty();
    m.record(0xCD, "TBG.Group.work", "");
    m.record(0xAB, "TBG.Group.work", "App.1");
    let t = saved(&m);
    assert!(t.starts_with(MAP_HEADER));
    assert!(t.contains("AB\tTBG.Group.work\tApp.1\n"));
    assert!(t.contains("CD\tTBG.Group.work\t\n"));
    assert_eq!(
        t,
        "# tbg-restore.tsv v1\nAB\tTBG.Group.work\tApp.1\nCD\tTBG.Group.work\t\n"
    );
    let m2 = RestoreMap::load(&text(&t)).ok().unwrap();
    assert_eq!(m2.len(), 2);
    assert_eq!(serialize(&m2), t);
}

#[test]
fn empty_save_removes_file() {
    let mut m = empty();
    m.record(0x1, "TBG.Group.work", "x");
    let t = saved(&m);
    let mut m = RestoreMap::load(&text(&t)).ok().unwrap();
    assert!(m.remove(0x1));
    assert!(!m.remove(0x1));
    assert!(matches!(m.save(), SavePlan::RemoveFile));
}

#[test]
fn corrupt_file_rejected_fail_safe() {
    assert!(RestoreMap::load(&text("not-tsv\n")).is_err());
    assert!(RestoreMap::load(&text("# tbg-restore.tsv v1\n20176\tTBG.Group")).is_err());
}

#[test]
fn v0_legacy_headerless_table_still_parses() {
    let m = RestoreMap::load(&text("20176\tTBG.Group.work\tApp.1\n"))
        .ok()
        .unwrap();
    assert_eq!(m.len(), 1);
    assert_eq!(m.peek(0x20176, "TBG.Group.work").unwrap(), "App.1");
}

#[test]
fn bad_hwnd_rejected() {
    assert!(RestoreMap::load(&text("ZZZZ\tTBG.Group.work\tApp.1\n")).is_err());
}

#[test]
fn status_read_only_three_states() {
    assert!(matches!(status(&MapFile::Absent), MapStatus::Absent));
    let mut m = empty();
    m.record(0x11, "TBG.Group.work", "A");
    m.record(0x22, "TBG.Group.work", "B");
    match status(&text(&saved(&m))) {
        MapStatus::Intact { entries } => assert_eq!(entries, 2),
        _ => panic!("expected Intact"),
    }
    match status(&text(MAP_HEADER)) {
        MapStatus::Intact { entries } => assert_eq!(entries, 0),
        _ => panic!("expected Intact(0)"),
    }
    assert!(matches!(
        status(&text("garbage-not-tsv")),
        MapStatus::Corrupt(_)
    ));
    match status(&MapFile::Unreadable("denied".to_string())) {
        MapStatus::Corrupt(e) => assert_eq!(e, "read failed: denied"),
        _ => panic!("expected Corrupt"),
    }
}

#[test]
fn map_errors_name_the_line() {
    match parse("# x\n\n1\tg\to\nnot tsv\n") {
        Err(e) => assert_eq!(
            e,
            "restore map corrupt at line 4 (expected 3 TSV fields): 'not tsv'"
        ),
        Ok(_) => panic!("a line without fields is wrong"),
    }
    match parse("1\tg\to\n0xZ\tg\to\n") {
        Err(e) => assert_eq!(e, "restore map corrupt at line 2 (bad HWND '0xZ')"),
        Ok(_) => panic!("a handle that is none is wrong"),
    }
    match RestoreMap::load(&MapFile::Unreadable("denied".to_string())) {
        Err(e) => assert_eq!(e, "restore map read failed: denied"),
        Ok(_) => panic!("an unreadable file is an error"),
    }
}

#[test]
fn map_keeps_tabs_in_originals_and_later_entries() {
    let m = parse("0x0xa\tTBG.Group.a\tone\r\nA\tTBG.Group.a\ttwo\twith tab\n")
        .ok()
        .unwrap();
    assert_eq!(m.len(), 1);
    assert_eq!(m.peek(10, "TBG.Group.a").unwrap(), "two\twith tab");
}

#[test]
fn map_cannot_hold_a_carriage_return_at_the_end() {
    let mut m = empty();
    m.record(1, "g", "App\r");
    let back = parse(&serialize(&m)).ok().unwrap();
    assert_eq!(back.peek(1, "g").unwrap(), "App");
}

#[test]
fn legacy_map_is_rewritten_in_the_present_form() {
    assert_eq!(
        migrate_legacy(&text("20176\tTBG.Group.work\tApp.1\n")),
        Some("# tbg-restore.tsv v1\n20176\tTBG.Group.work\tApp.1\n".to_string())
    );
    assert_eq!(migrate_legacy(&text("broken")), None);
    assert_eq!(migrate_legacy(&MapFile::Absent), None);
    assert_eq!(
        migrate_legacy(&MapFile::Unreadable("denied".to_string())),
        None
    );
}

#[test]
fn paths_of_the_map() {
    assert_eq!(
        tmp_path(&format!("C:\\data\\{}", MAP_FILE_NAME)),
        "C:\\data\\tbg-restore.tsv.tmp"
    );
    assert!(data_dir_is_local(Some("C:\\Users\\x\\AppData\\Local")));
    assert!(!data_dir_is_local(Some("")));
    assert!(!data_dir_is_local(None));
}
