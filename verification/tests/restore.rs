use tbg_lite::restore::{MapSource, RestoreJob, RestoreRun, RestoreStep};
use tbg_lite::restoremap::{dir_error, MapFile, SavePlan};

fn ok(s: &str) -> Result<String, String> {
    Ok(s.to_string())
}

fn job(s: RestoreStep) -> RestoreJob {
    match s {
        RestoreStep::Write(j) => j,
        _ => panic!("a write was expected"),
    }
}

fn line(s: RestoreStep) -> String {
    match s {
        RestoreStep::Line(l) => l,
        _ => panic!("a line was expected"),
    }
}

fn with_map(run: &mut RestoreRun, text: &str) {
    assert!(run.mutex_acquired(Ok(())).is_ok());
    assert_eq!(
        run.map_read(1, &MapSource::Found(MapFile::Text(text.to_string()))),
        None
    );
}

#[test]
fn suffix_is_stripped() {
    let mut run = RestoreRun::new(false, false);
    let j = job(run.step(0xAB, &ok("App~TBG~wAB")));
    assert_eq!(j.original, "App");
    assert_eq!(
        run.written(&j, Ok(())),
        "0xAB \"App~TBG~wAB\" -> \"App\""
    );
    let j = job(run.step(0xAC, &ok("~TBG~wAC")));
    assert_eq!(j.original, "");
    assert_eq!(run.written(&j, Ok(())), "0xAC ~TBG~wAC -> <cleared>");
    assert_eq!((run.restored, run.cleared), (1, 1));
    assert!(run.save_plan().is_none());
}

#[test]
fn group_is_looked_up() {
    let mut run = RestoreRun::new(false, false);
    assert!(matches!(
        run.step(0xAB, &ok("TBG.Group.work")),
        RestoreStep::NeedMutex
    ));
    assert!(run.mutex_acquired(Ok(())).is_ok());
    assert!(matches!(
        run.step(0xAB, &ok("TBG.Group.work")),
        RestoreStep::NeedMap
    ));
    with_map(
        &mut run,
        "AB\tTBG.Group.work\tApp\nAC\tTBG.Group.work\t\nAD\tTBG.Group.other\tx\n",
    );
    let j = job(run.step(0xAB, &ok("TBG.Group.work")));
    assert_eq!(
        run.written(&j, Ok(())),
        "0xAB \"TBG.Group.work\" -> \"App\""
    );
    let j = job(run.step(0xAC, &ok("TBG.Group.work")));
    assert_eq!(
        run.written(&j, Ok(())),
        "0xAC \"TBG.Group.work\" -> <cleared>"
    );
    assert_eq!(
        line(run.step(0xAD, &ok("TBG.Group.work"))),
        "0xAD group AUMID \"TBG.Group.work\" has no matching map entry; left untouched"
    );
    match run.save_plan() {
        Some(SavePlan::Write(t)) => {
            assert_eq!(t, "# tbg-restore.tsv v1\nAD\tTBG.Group.other\tx\n")
        }
        _ => panic!("the map is written"),
    }
    let (lines, result) = run.finish();
    assert_eq!(
        lines,
        vec![
            "",
            "restore summary: restored=1 cleared=1 skipped(no marker)=0 orphans(no map entry)=1 failed=0",
            "note: whether taskbar buttons fully return to native grouping must be observed on real Windows",
        ]
    );
    assert!(result.is_ok());
}

#[test]
fn dry_run_keeps_the_map() {
    let mut run = RestoreRun::new(true, false);
    with_map(&mut run, "AB\tTBG.Group.work\tApp\nAC\tTBG.Group.work\t\n");
    assert_eq!(
        line(run.step(0xAB, &ok("TBG.Group.work"))),
        "0xAB \"TBG.Group.work\" -> \"App\" [dry-run]"
    );
    assert_eq!(
        line(run.step(0xAC, &ok("TBG.Group.work"))),
        "0xAC \"TBG.Group.work\" -> <cleared> [dry-run]"
    );
    assert_eq!(
        line(run.step(0xAE, &ok("~TBG~wAE"))),
        "0xAE ~TBG~wAE -> <cleared> [dry-run]"
    );
    assert_eq!(
        line(run.step(0xAB, &ok("TBG.Group.work"))),
        "0xAB \"TBG.Group.work\" -> \"App\" [dry-run]"
    );
    assert!(run.save_plan().is_none());
    let (lines, result) = run.finish();
    assert_eq!(
        lines[1],
        "restore summary (dry-run): would-restore=4 skipped(no marker)=0 orphans(no map entry)=0 failed=0 — nothing written, restore map untouched"
    );
    assert!(result.is_ok());
}

#[test]
fn failures_are_counted_and_reported() {
    let mut run = RestoreRun::new(false, true);
    assert_eq!(
        line(run.step(0xAB, &Err("gone".to_string()))),
        "0xAB read FAILED: gone"
    );
    let j = job(run.step(0xAB, &ok("App~TBG~wAB")));
    assert_eq!(
        run.written(&j, Err("denied".to_string())),
        "0xAB restore FAILED: denied"
    );
    let j = job(run.step(0xAB, &ok("~TBG~wAB")));
    assert_eq!(
        run.written(&j, Err("denied".to_string())),
        "0xAB clear FAILED: denied"
    );
    assert_eq!(
        line(run.step(0xAB, &ok(""))),
        "0xAB no marker, nothing to restore (aumid: <empty>)"
    );
    assert_eq!(run.finish().1.unwrap_err(), "restore: 3 window(s) failed");
}

#[test]
fn unreadable_map_is_tried_once() {
    let mut run = RestoreRun::new(false, false);
    assert!(run.mutex_acquired(Ok(())).is_ok());
    assert_eq!(
        run.map_read(0xAB, &MapSource::Found(MapFile::Text("broken".to_string()))),
        Some(
            "0xAB restore map load FAILED: restore map corrupt at line 1 (expected 3 TSV fields): 'broken'"
                .to_string()
        )
    );
    assert_eq!(
        line(run.step(0xAC, &ok("TBG.Group.work"))),
        "0xAC restore map unavailable; left untouched"
    );
    assert_eq!((run.failed, run.orphans), (1, 1));
    let mut run = RestoreRun::new(false, false);
    assert_eq!(
        run.map_read(0xAB, &MapSource::NoDirectory("none".to_string())),
        Some("restore map dir unavailable: none".to_string())
    );
    let mut run = RestoreRun::new(false, false);
    let why = dir_error("C:\\d", "denied");
    assert_eq!(
        run.map_read(0xAB, &MapSource::NotMade(why)),
        Some(
            "0xAB restore map load FAILED: restore map dir create failed (C:\\d): denied".to_string()
        )
    );
    assert_eq!(run.failed, 1);
    assert!(matches!(
        RestoreRun::new(false, false).step(1, &ok("plain")),
        RestoreStep::Quiet
    ));
    assert_eq!(
        RestoreRun::new(false, false)
            .mutex_acquired(Err("held".to_string()))
            .unwrap_err(),
        "restore: held"
    );
}
