use tbg_lite::restoremap::{MapFile, RestoreMap, SavePlan};
use tbg_lite::watchlog::{
    banner_quoted, final_scan_and_report, listed_line, start_message_quoted, Seen,
};
use tbg_lite::winevent::{
    change_line, clip, dry_run_line, failure_line, fmt_window, judge, titled_window, Action, Job, Next, Output, Reply, Trigger, Verdict, WatchOptions,
    WatchStrategy, WatcherState, EVENT_OBJECT_CREATE, EVENT_OBJECT_DESTROY,
    EVENT_OBJECT_NAMECHANGE, EVENT_OBJECT_SHOW,
};
use tbg_lite::winutil::WindowFacts;

const AT: &str = "[   1.000s]";

fn window(aumid: &str) -> WindowFacts {
    WindowFacts {
        is_root: true,
        visible: true,
        title: "Untitled".to_string(),
        class: "Notepad".to_string(),
        ex_style: 0,
        cloak: Some(0),
        pid: 42,
        aumid: Ok(aumid.to_string()),
    }
}

fn options(strategy: WatchStrategy) -> WatchOptions {
    WatchOptions {
        duration_secs: 0,
        dry_run: false,
        verbose: true,
        strategy,
        group_name: None,
        stoppable: false,
        ring_log: false,
    }
}

fn ungroup() -> WatcherState {
    WatcherState::new(&options(WatchStrategy::Ungroup), String::new(), None)
}

fn group() -> WatcherState {
    let map = RestoreMap::load(&MapFile::Absent).ok().unwrap();
    WatcherState::new(
        &options(WatchStrategy::Group),
        "TBG.Group.work".to_string(),
        Some(map),
    )
}

fn line(r: &Reply) -> &str {
    match &r.output {
        Output::Line(s) => s,
        Output::Error(s) => s,
        Output::Silent => "",
    }
}

fn to_write(r: Reply) -> Job {
    match r.action {
        Action::Write(j) => j,
        _ => panic!("a write was expected"),
    }
}

fn to_save(r: Reply) -> Job {
    match r.action {
        Action::SaveThenWrite(j) => j,
        _ => panic!("a save was expected"),
    }
}

#[test]
fn clip_marks_truncation() {
    assert_eq!(clip("short", 10), "short");
    assert_eq!(clip("0123456789", 10), "0123456789");
    assert_eq!(clip("exactly-10!", 10), "exactly-1~");
    assert_eq!(clip("a-bit-too-long-value", 10), "a-bit-too~");
    assert_eq!(clip("中文窗口标题很长", 5), "中文窗口~");
}

#[test]
fn clip_to_nothing_leaves_the_tilde() {
    assert_eq!(clip("abc", 0), "~");
    assert_eq!(clip("abc", 1), "~");
    assert_eq!(clip("", 0), "");
}

#[test]
fn window_line_quotes_the_title() {
    let mut w = window("x");
    w.title = "tab\there \"q\"".to_string();
    assert_eq!(
        fmt_window(0x10C12A8, &w),
        "0x10C12A8 pid=42 class=Notepad title=\"tab\\there \\\"q\\\"\""
    );
}

#[test]
fn time_is_right_aligned() {
    assert_eq!(WatcherState::ts("1.000"), "[   1.000s]");
    assert_eq!(WatcherState::ts("123456.789"), "[123456.789s]");
}

#[test]
fn strategy_labels() {
    assert_eq!(
        WatchStrategy::Ungroup.label(),
        "ungroup (per-window suffix, line 1)"
    );
    assert_eq!(WatchStrategy::Group.label(), "group (shared AUMID, line 2)");
}

#[test]
fn verdicts_on_both_lines() {
    let own = window("App~TBG~wAB");
    let grouped = window("TBG.Group.work");
    let plain = window("App");
    assert!(judge(WatchStrategy::Ungroup, 0xAB, &own) == Verdict::OwnSuffix);
    assert!(judge(WatchStrategy::Ungroup, 0xAC, &own) == Verdict::SuffixLike);
    assert!(judge(WatchStrategy::Ungroup, 0xAB, &grouped) == Verdict::CrossGroup);
    assert!(judge(WatchStrategy::Ungroup, 0xAB, &plain) == Verdict::Candidate);
    assert!(judge(WatchStrategy::Group, 0xAB, &own) == Verdict::CrossSuffix);
    assert!(judge(WatchStrategy::Group, 0xAB, &grouped) == Verdict::OwnGroup);
    assert!(judge(WatchStrategy::Group, 0xAB, &plain) == Verdict::Candidate);
    let mut w = window("App");
    w.class = "shell_TRAYwnd".to_string();
    assert!(judge(WatchStrategy::Group, 1, &w) == Verdict::Shell);
    w.title = String::new();
    assert!(judge(WatchStrategy::Group, 1, &w) == Verdict::NotApp);
    let mut w = window("App");
    w.cloak = Some(2);
    assert!(judge(WatchStrategy::Group, 1, &w) == Verdict::Cloaked);
    let mut w = window("App");
    w.aumid = Err("gone".to_string());
    assert!(judge(WatchStrategy::Group, 1, &w) == Verdict::ReadFail);
    let mut w = window("App");
    w.ex_style = 0x80;
    assert!(judge(WatchStrategy::Group, 1, &w) == Verdict::NotApp);
}

#[test]
fn ungroup_marks_once() {
    let mut s = ungroup();
    assert!(s.on_event(EVENT_OBJECT_CREATE, 0xAB, 0, 0) == Next::Consider(Trigger::Create));
    let j = to_write(s.consider(Trigger::Create, 0xAB, &window("App"), AT));
    assert_eq!(j.value, "App~TBG~wAB");
    let r = s.written(j, Ok("0.5".to_string()), AT);
    assert_eq!(
        line(&r),
        "[   1.000s] CREATE 0xAB pid=42 class=Notepad title=\"Untitled\" aumid=\"App\" -> \"App~TBG~wAB\" (write 0.5ms)"
    );
    assert_eq!((s.stats.candidates, s.stats.rewritten), (1, 1));
    assert!(s.on_event(EVENT_OBJECT_SHOW, 0xAB, 0, 0) == Next::Ignore);
    assert_eq!(s.stats.skipped_dupe, 1);
    assert!(s.on_event(EVENT_OBJECT_NAMECHANGE, 0xAB, 0, 0) == Next::Reassert);
    let r = s.reassert(0xAB, &window("App~TBG~wAB"), AT);
    assert!(matches!(r.action, Action::Nothing));
    assert_eq!(line(&r), "");
}

#[test]
fn lost_marker_is_written_again() {
    let mut s = ungroup();
    let j = to_write(s.reassert(0xAB, &window(""), AT));
    assert_eq!(j.value, "~TBG~wAB");
    let r = s.written(j, Ok("1.5".to_string()), AT);
    assert_eq!(
        line(&r),
        "[   1.000s] REASSERT 0xAB pid=42 class=Notepad title=\"Untitled\" aumid=\"<empty>\" -> \"~TBG~wAB\" (marker lost, re-applied, write 1.5ms)"
    );
    assert_eq!(s.stats.reasserted, 1);
    let j = to_write(s.reassert(0xAB, &window("App"), AT));
    let r = s.written(j, Err("denied".to_string()), AT);
    assert!(matches!(r.output, Output::Error(_)));
    assert_eq!(s.stats.write_fail, 1);
}

#[test]
fn failed_write_can_be_tried_again() {
    let mut s = ungroup();
    let j = to_write(s.consider(Trigger::Show, 0xAB, &window("App"), AT));
    let r = s.written(j, Err("denied".to_string()), AT);
    assert_eq!(
        line(&r),
        "[   1.000s] SHOW 0xAB pid=42 class=Notepad title=\"Untitled\" aumid=\"App\" write FAILED: denied"
    );
    assert!(s.on_event(EVENT_OBJECT_SHOW, 0xAB, 0, 0) == Next::Consider(Trigger::Show));
}

#[test]
fn group_saves_before_it_writes() {
    let mut s = group();
    let j = to_save(s.consider(Trigger::Show, 0xAB, &window("App"), AT));
    assert_eq!(j.value, "TBG.Group.work");
    match s.save_plan() {
        Some(SavePlan::Write(t)) => {
            assert_eq!(t, "# tbg-restore.tsv v1\nAB\tTBG.Group.work\tApp\n")
        }
        _ => panic!("the map is written"),
    }
    let j = to_write(s.saved(j, Ok(()), AT));
    let r = s.written(j, Ok("2.0".to_string()), AT);
    assert!(line(&r).ends_with("aumid=\"App\" -> \"TBG.Group.work\" (group, write 2.0ms)"));
    assert!(s.on_event(EVENT_OBJECT_DESTROY, 0xAB, 0, 0) == Next::SaveMap);
    assert!(matches!(s.save_plan(), Some(SavePlan::RemoveFile)));
    assert!(s.on_event(EVENT_OBJECT_CREATE, 0xAB, 0, 0) == Next::Consider(Trigger::Create));
}

#[test]
fn group_gives_up_where_the_map_cannot_be_saved() {
    let mut s = group();
    let j = to_save(s.consider(Trigger::Show, 0xAB, &window("App"), AT));
    let r = s.saved(j, Err("disk full".to_string()), AT);
    assert!(matches!(r.action, Action::Nothing));
    assert!(line(&r).ends_with(" group write FAILED: disk full (AUMID left untouched)"));
    assert!(matches!(s.save_plan(), Some(SavePlan::RemoveFile)));
    let j = to_save(s.reassert(0xAB, &window("App"), AT));
    let r = s.saved(j, Err("disk full".to_string()), AT);
    assert!(line(&r).ends_with(" map save FAILED: disk full (AUMID left untouched)"));
    assert_eq!(s.stats.write_fail, 2);
}

#[test]
fn group_rolls_back_where_the_write_fails() {
    let mut s = group();
    let j = to_save(s.consider(Trigger::Show, 0xAB, &window("App"), AT));
    let j = to_write(s.saved(j, Ok(()), AT));
    let r = s.written(j, Err("denied".to_string()), AT);
    assert!(matches!(r.action, Action::SaveMap));
    assert!(line(&r).ends_with("aumid=\"App\" group write FAILED: denied"));
    assert!(matches!(s.save_plan(), Some(SavePlan::RemoveFile)));
}

#[test]
fn group_keeps_the_first_original() {
    let mut s = group();
    let j = to_save(s.consider(Trigger::Show, 0xAB, &window("App"), AT));
    let j = to_write(s.saved(j, Ok(()), AT));
    s.written(j, Ok("1.0".to_string()), AT);
    let j = to_write(s.reassert(0xAB, &window("Shell.Own"), AT));
    assert_eq!(j.value, "TBG.Group.work");
    match &s.map {
        Some(m) => assert_eq!(m.peek(0xAB, "TBG.Group.work").unwrap(), "App"),
        None => panic!("there is a map"),
    }
}

#[test]
fn group_without_a_map_writes_nothing() {
    let mut s = WatcherState::new(
        &options(WatchStrategy::Group),
        "TBG.Group.work".to_string(),
        None,
    );
    let r = s.consider(Trigger::Show, 0xAB, &window("App"), AT);
    assert!(line(&r).ends_with(" group write FAILED: no restore map loaded"));
    let r = s.reassert(0xAB, &window("App"), AT);
    assert!(line(&r).ends_with(" group reassert FAILED: no restore map loaded"));
    assert_eq!(s.stats.write_fail, 2);
    assert!(s.save_plan().is_none());
}

#[test]
fn dry_run_only_prints() {
    let mut o = options(WatchStrategy::Group);
    o.dry_run = true;
    let mut s = WatcherState::new(&o, "TBG.Group.work".to_string(), None);
    let r = s.consider(Trigger::Show, 0xAB, &window(""), AT);
    assert!(matches!(r.action, Action::Nothing));
    assert!(line(&r).ends_with("[dry-run] aumid=\"<empty>\" -> \"TBG.Group.work\" (group)"));
    let r = s.reassert(0xAB, &window(""), AT);
    assert!(matches!(r.action, Action::Nothing));
    assert_eq!(s.stats.dry_run_hits, 1);
    let mut o = options(WatchStrategy::Ungroup);
    o.dry_run = true;
    let mut s = WatcherState::new(&o, String::new(), None);
    let r = s.consider(Trigger::Show, 0xAB, &window("App"), AT);
    assert!(line(&r).ends_with("[dry-run] aumid=\"App\" -> \"App~TBG~wAB\""));
}

#[test]
fn skipped_windows_are_printed_with_reasons() {
    let mut s = ungroup();
    let r = s.consider(Trigger::Name, 0xAB, &window("App~TBG~wAC"), AT);
    assert_eq!(
        line(&r),
        "[   1.000s] NAME 0xAB pid=42 class=Notepad title=\"Untitled\" skip: already marked (suffix-like value not written by this tool for this window; skipped to avoid stacking)"
    );
    let mut w = window("App");
    w.aumid = Err("gone".to_string());
    let r = s.consider(Trigger::Name, 0xAC, &w, AT);
    assert!(line(&r).ends_with(" skip: AUMID read failed: gone"));
    let r = s.consider(Trigger::Name, 0xAD, &window("TBG.Group.a"), AT);
    assert!(line(&r).ends_with(" skip: cross-line marker (line 2 group AUMID)"));
    assert_eq!(s.stats.skipped_already_marked, 1);
    assert_eq!(s.stats.skipped_read_fail, 1);
    assert_eq!(s.stats.skipped_cross_line, 1);
    let mut keys = s.reverify_handled();
    keys.sort();
    assert_eq!(keys, vec![0xAB, 0xAD]);
}

#[test]
fn events_of_other_objects_are_ignored() {
    let mut s = ungroup();
    assert!(s.on_event(EVENT_OBJECT_CREATE, 0xAB, -4, 0) == Next::Ignore);
    assert!(s.on_event(EVENT_OBJECT_CREATE, 0xAB, 0, 1) == Next::Ignore);
    assert!(s.on_event(EVENT_OBJECT_CREATE, 0, 0, 0) == Next::Ignore);
    assert!(s.on_event(0x8003, 0xAB, 0, 0) == Next::Ignore);
    assert_eq!(s.stats.events_create, 0);
}

#[test]
fn sweeps_count_apart() {
    let mut s = ungroup();
    s.begin_startup_sweep();
    s.sweep_window(1);
    let j = to_write(s.consider(Trigger::Sweep, 1, &window("App"), AT));
    s.written(j, Ok("1.0".to_string()), AT);
    s.sweep_window(2);
    s.consider(Trigger::Sweep, 2, &window("App~TBG~w2"), AT);
    assert_eq!(
        s.end_startup_sweep(),
        "startup sweep (task 13): pre-existing windows rewritten=1 already-marked=1 baseline-top-level=2"
    );
    s.begin_resweep();
    s.sweep_window(1);
    s.consider(Trigger::Resweep, 1, &window("App~TBG~w1"), AT);
    assert_eq!(
        s.end_resweep(),
        "resweep (task 20): shell-restart re-sweep rewritten=0 already-marked=1"
    );
    assert_eq!(s.stats.shell_restarts, 1);
    s.on_event(EVENT_OBJECT_DESTROY, 1, 0, 0);
    assert_eq!(s.stats.events_destroy_tracked, 1);
}

#[test]
fn report_tells_what_was_missed_and_reverted() {
    let mut s = ungroup();
    s.begin_startup_sweep();
    s.sweep_window(1);
    let j = to_write(s.consider(Trigger::Sweep, 1, &window("App"), AT));
    s.written(j, Ok("1.0".to_string()), AT);
    s.sweep_window(2);
    s.end_startup_sweep();
    let mut gone = window("x");
    gone.aumid = Err("gone".to_string());
    let mut tool = window("x");
    tool.visible = false;
    let out = final_scan_and_report(
        &s,
        &vec![
            Seen { key: 1, facts: window("App") },
            Seen { key: 2, facts: window("App") },
            Seen { key: 3, facts: window("New") },
            Seen { key: 4, facts: window("New~TBG~w4") },
            Seen { key: 5, facts: gone },
            Seen { key: 6, facts: tool },
        ],
    );
    assert_eq!(out.len(), 18);
    assert_eq!(
        out[1],
        "==== watch stats (task 6/8/13, docs/plan.md v2 §3, strategy: ungroup (per-window suffix, line 1)) ===="
    );
    assert_eq!(out[11], "alive with marker                 : 1");
    assert_eq!(out[12], "reverted (app rewrote its AUMID)  : 1");
    assert_eq!(
        out[13],
        "  reverted: 0x1 pid=42 class=Notepad title=\"Untitled\" aumid=\"App\""
    );
    assert_eq!(out[14], "missed (new app w/o marker)       : 1");
    assert_eq!(
        out[15],
        "  missed: 0x3 pid=42 class=Notepad title=\"Untitled\" aumid=\"New\""
    );
    assert_eq!(out[16], "(scan: 1 windows unreadable)");
    assert_eq!(
        out[17],
        "note: taskbar button races/jumps must be observed manually on real Windows"
    );
}

#[test]
fn report_of_a_dry_run_is_short() {
    let mut o = options(WatchStrategy::Ungroup);
    o.dry_run = true;
    let mut s = WatcherState::new(&o, String::new(), None);
    s.consider(Trigger::Show, 0xAB, &window("App"), AT);
    let out = final_scan_and_report(&s, &Vec::new());
    assert_eq!(
        out[8],
        "dry-run    : 1 candidates logged, nothing written"
    );
    assert_eq!(out.len(), 10);
}

#[test]
fn report_of_the_group_line_counts_the_map() {
    let mut s = group();
    s.consider(Trigger::Show, 0xAB, &window("App"), AT);
    let out = final_scan_and_report(&s, &Vec::new());
    assert_eq!(
        out[out.len() - 2],
        "restore-map entries alive         : 1 (tbg-restore.tsv, %LOCALAPPDATA%\\tbg-lite)"
    );
}

#[test]
fn window_without_a_button_is_looked_at_again() {
    let mut w = ungroup();
    let mut hidden = window("App");
    hidden.visible = false;
    assert!(matches!(
        w.consider(Trigger::Create, 0xAB, &hidden, AT).action,
        Action::Nothing
    ));
    assert!(!w.handled.contains(&0xAB));
    assert!(w.on_event(EVENT_OBJECT_SHOW, 0xAB, 0, 0) == Next::Consider(Trigger::Show));
    let job = to_write(w.consider(Trigger::Show, 0xAB, &window("App"), AT));
    w.written(job, Ok("0.1".to_string()), AT);
    assert!(w.handled.contains(&0xAB));
    assert!(w.on_event(EVENT_OBJECT_SHOW, 0xAB, 0, 0) == Next::Ignore);
}

#[test]
fn skipped_windows_are_not_reverted() {
    let mut s = ungroup();
    let grouped = window("TBG.Group.x");
    let mut shell = window("Explorer");
    shell.class = "Progman".to_string();
    s.consider(Trigger::Show, 1, &grouped, AT);
    s.consider(Trigger::Show, 2, &shell, AT);
    let j = to_write(s.consider(Trigger::Show, 3, &window("App"), AT));
    s.written(j, Err("denied".to_string()), AT);
    assert!(s.handled.contains(&1) && s.handled.contains(&2) && s.rewritten.is_empty());
    let out = final_scan_and_report(
        &s,
        &vec![
            Seen { key: 1, facts: window("TBG.Group.x") },
            Seen { key: 2, facts: shell },
            Seen { key: 3, facts: window("App") },
        ],
    );
    assert_eq!(out[11], "alive with marker                 : 0");
    assert_eq!(out[12], "reverted (app rewrote its AUMID)  : 0");
    assert_eq!(out[13], "missed (new app w/o marker)       : 1");
}

#[test]
fn written_windows_are_remembered_until_they_are_destroyed() {
    let mut s = ungroup();
    let own = window("App~TBG~wAB");
    s.consider(Trigger::Show, 0xAB, &own, AT);
    assert!(s.rewritten.is_empty());
    let j = to_write(s.reassert(0xAB, &window("App"), AT));
    s.written(j, Ok("0.2".to_string()), AT);
    assert!(s.rewritten.contains(&0xAB));
    let seen = vec![Seen { key: 0xAB, facts: window("App") }];
    let out = final_scan_and_report(&s, &seen);
    assert_eq!(out[12], "reverted (app rewrote its AUMID)  : 1");
    s.on_event(EVENT_OBJECT_DESTROY, 0xAB, 0, 0);
    assert!(s.rewritten.is_empty());
    let out = final_scan_and_report(&s, &seen);
    assert_eq!(out[12], "reverted (app rewrote its AUMID)  : 0");
}

#[test]
fn lines_around_quoted_texts() {
    assert_eq!(
        titled_window(0xAB, &window("x"), "<t>"),
        "0xAB pid=42 class=Notepad title=<t>"
    );
    assert_eq!(
        dry_run_line("h", "<a>", "<b>", WatchStrategy::Ungroup),
        "h [dry-run] aumid=<a> -> <b>"
    );
    assert_eq!(
        dry_run_line("h", "<a>", "<b>", WatchStrategy::Group),
        "h [dry-run] aumid=<a> -> <b> (group)"
    );
    assert_eq!(
        change_line("h", "<a>", "<b>", WatchStrategy::Ungroup, false, "0.3"),
        "h aumid=<a> -> <b> (write 0.3ms)"
    );
    assert_eq!(
        change_line("h", "<a>", "<b>", WatchStrategy::Group, false, "0.3"),
        "h aumid=<a> -> <b> (group, write 0.3ms)"
    );
    assert_eq!(
        change_line("h", "<a>", "<b>", WatchStrategy::Group, true, "0.3"),
        "h aumid=<a> -> <b> (marker lost, re-applied, write 0.3ms)"
    );
    assert_eq!(
        failure_line("h", "<a>", WatchStrategy::Ungroup, "e"),
        "h aumid=<a> write FAILED: e"
    );
    assert_eq!(
        failure_line("h", "<a>", WatchStrategy::Group, "e"),
        "h aumid=<a> group write FAILED: e"
    );
    assert_eq!(listed_line("  missed: ", "w", "<a>"), "  missed: w aumid=<a>");
    let o = options(WatchStrategy::Group);
    assert_eq!(
        banner_quoted(&o, false, "<g>")[3],
        "group    : every candidate window (incl. pre-existing) gets the shared AUMID <g>"
    );
    assert_eq!(
        start_message_quoted(&o, Some("<n>".to_string())),
        "watch start: strategy=group group=Some(<n>) duration=0ns dry_run=false"
    );
}
