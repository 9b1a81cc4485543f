use tbg_lite::l10n::{L10n, Lang};
use tbg_lite::menu::{is_yes, strip_bom, watch_options, Answer, Ending, Menu, MenuAction};
use tbg_lite::winevent::WatchStrategy;

#[test]
fn lang_toggle_roundtrip() {
    let mut loc = L10n { lang: Lang::En };
    assert_eq!(loc.lang_name(), "English");
    loc.toggle();
    assert_eq!(loc.lang_name(), "中文");
    loc.toggle();
    assert_eq!(loc.lang_name(), "English");
}

#[test]
fn zh_banner_keeps_ci_asserted_substring() {
    let loc = L10n { lang: Lang::Zh };
    assert!(loc.banner().contains("interactive menu"));
}

#[test]
fn yes_variants() {
    assert!(is_yes("y"));
    assert!(is_yes("Y"));
    assert!(is_yes("yes"));
    assert!(is_yes("YES"));
    assert!(is_yes("  y  "));
}

#[test]
fn no_is_default() {
    assert!(!is_yes(""));
    assert!(!is_yes("\n"));
    assert!(!is_yes("n"));
    assert!(!is_yes("N"));
    assert!(!is_yes("no"));
    assert!(!is_yes("ye"));
    assert!(!is_yes("yeah"));
}

#[test]
fn bom_prefix_stripped() {
    assert_eq!(strip_bom("\u{feff}1"), "1");
    assert_eq!(strip_bom("\u{feff}smoke\n"), "smoke\n");
}

#[test]
fn bom_absent_passthrough() {
    assert_eq!(strip_bom("1"), "1");
    assert_eq!(strip_bom(""), "");
    assert_eq!(strip_bom("a\u{feff}b"), "a\u{feff}b");
}

fn english() -> Menu {
    let (menu, lines) = Menu::new(0x0409);
    assert_eq!(
        lines,
        vec![
            "tbg-lite 0.1.0 — interactive menu (no arguments given)",
            "tip: `tbg-lite --help` shows the CLI; no Ctrl+C needed — use [0] to exit",
        ]
    );
    menu
}

fn prompted(a: &Answer) -> &str {
    match &a.action {
        MenuAction::Prompt(p) => p,
        _ => panic!("a prompt was expected"),
    }
}

#[test]
fn language_follows_the_primary_language() {
    assert_eq!(L10n::new(0x0804).lang, Lang::Zh);
    assert_eq!(L10n::new(0x0404).lang, Lang::Zh);
    assert_eq!(L10n::new(0x0409).lang, Lang::En);
    assert_eq!(L10n::new(0x0407).lang, Lang::En);
}

#[test]
fn menu_shows_its_choices() {
    let mut m = english();
    let a = m.begin_turn(None);
    assert_eq!(prompted(&a), "> ");
    assert_eq!(a.lines.len(), 9);
    assert_eq!(a.lines[0], "");
    assert_eq!(a.lines[1], "watch status : not running");
    assert_eq!(a.lines[8], "language: English — press L for 中文");
}

#[test]
fn menu_starts_one_watcher_at_a_time() {
    let mut m = english();
    m.begin_turn(None);
    let a = m.on_line("\u{feff}1\r\n");
    assert!(matches!(
        a.action,
        MenuAction::Spawn(WatchStrategy::Ungroup, None)
    ));
    let a = m.spawned();
    assert_eq!(
        a.lines,
        vec!["menu: watch started (line 1, ungroup) — taskbar grouping disabled"]
    );
    let a = m.begin_turn(None);
    assert_eq!(
        a.lines[1],
        "watch status : RUNNING — ungroup (line 1: disable grouping on the taskbar)"
    );
    let a = m.on_line("2\n");
    assert_eq!(
        a.lines,
        vec!["menu: watch already running — stop it first with [3]"]
    );
    m.begin_turn(None);
    let a = m.on_line("4\n");
    assert_eq!(
        a.lines,
        vec!["menu: stop the watch first ([3]) — restoring while watching would fight the rewriter"]
    );
    m.begin_turn(None);
    let a = m.on_line("3\n");
    assert!(matches!(a.action, MenuAction::Stop));
    let a = m.stopped(Ok(()));
    assert_eq!(
        a.lines,
        vec!["menu: watch stopped gracefully (stats above; rewrites kept)"]
    );
    assert!(matches!(a.action, MenuAction::NextTurn));
}

#[test]
fn menu_asks_for_the_name_of_a_group() {
    let mut m = english();
    m.begin_turn(None);
    let a = m.on_line("2");
    assert_eq!(
        prompted(&a),
        "group name (1-32 chars, [A-Za-z0-9._-], empty = cancel): "
    );
    let a = m.on_line("  \n");
    assert_eq!(a.lines, vec!["menu: cancelled (empty group name)"]);
    m.begin_turn(None);
    m.on_line("2");
    let a = m.on_line("a b");
    assert_eq!(
        a.lines,
        vec!["menu: invalid group name: invalid group name 'a b' (allowed: 1-32 chars of A-Z a-z 0-9 . _ -)"]
    );
    m.begin_turn(None);
    m.on_line("2");
    let a = m.on_line(" work \n");
    match a.action {
        MenuAction::Spawn(WatchStrategy::Group, Some(name)) => assert_eq!(name, "work"),
        _ => panic!("a start was expected"),
    }
    assert_eq!(
        m.spawned().lines,
        vec!["menu: watch started (line 2, group \"work\")"]
    );
}

#[test]
fn menu_restores_after_a_confirmation() {
    let mut m = english();
    m.begin_turn(None);
    assert_eq!(prompted(&m.on_line("4")), "restore all rewrites? [y/N] ");
    assert_eq!(m.on_line("n").lines, vec!["menu: restore cancelled"]);
    m.begin_turn(None);
    m.on_line("4");
    assert!(matches!(m.on_line(" YES\r\n").action, MenuAction::Restore));
    assert_eq!(
        m.restored(Err("no".to_string())).lines,
        vec!["menu: restore failed: no"]
    );
    m.begin_turn(None);
    assert!(matches!(m.on_line("0").action, MenuAction::Exit(0)));
}

#[test]
fn menu_restores_before_the_end_and_tells_by_its_exit_code() {
    let mut m = english();
    m.begin_turn(None);
    m.on_line("1");
    m.spawned();
    m.begin_turn(None);
    assert_eq!(
        prompted(&m.on_line("0")),
        "watch is running — restore rewrites before exit? [y/N] "
    );
    assert!(matches!(m.on_line("y").action, MenuAction::Stop));
    let a = m.stopped(Ok(()));
    assert_eq!(a.lines, vec!["menu: watch stopped gracefully (stats above)"]);
    assert!(matches!(a.action, MenuAction::Restore));
    let a = m.restored(Err("1 window(s) failed".to_string()));
    assert_eq!(
        a.lines,
        vec!["menu: restore failed: 1 window(s) failed", "menu: exiting — bye."]
    );
    assert!(matches!(a.action, MenuAction::Exit(1)));
}

#[test]
fn menu_ends_with_its_input() {
    let mut m = english();
    m.begin_turn(None);
    let a = m.on_end_of_input();
    assert_eq!(
        a.lines,
        vec!["", "menu: stdin closed — exiting (watch stopped, rewrites kept)"]
    );
    assert!(matches!(a.action, MenuAction::Exit(0)));
    let mut m = english();
    m.begin_turn(None);
    m.on_line("1");
    m.spawned();
    m.begin_turn(None);
    assert!(matches!(m.on_end_of_input().action, MenuAction::Stop));
    let a = m.stopped(Err("late".to_string()));
    assert!(a.lines.is_empty());
    assert!(matches!(a.action, MenuAction::Exit(0)));
    let mut m = english();
    m.begin_turn(None);
    m.on_line("4");
    assert_eq!(
        m.on_end_of_input().lines,
        vec!["", "menu: stdin closed — exiting (rewrites kept)"]
    );
}

#[test]
fn menu_notices_a_watcher_that_ended_by_itself() {
    let mut m = english();
    m.begin_turn(None);
    m.on_line("1");
    m.spawned();
    let a = m.begin_turn(Some(Ending::Failed("hook".to_string())));
    assert_eq!(a.lines[0], "menu: watch failed: hook");
    assert_eq!(a.lines[1], "watch status : not running");
    assert_eq!(a.lines[3], "watch status : not running");
    assert_eq!(m.on_line("3").lines, vec!["menu: watch is not running"]);
}

#[test]
fn menu_changes_its_language_and_refuses_what_it_does_not_know() {
    let mut m = english();
    m.begin_turn(None);
    assert_eq!(m.on_line("L").lines, vec!["menu：语言已切换为中文"]);
    m.begin_turn(None);
    assert_eq!(
        m.on_line("9 ").lines,
        vec!["menu：未知选项 \"9\"（可用：0-5、L）"]
    );
    m.begin_turn(None);
    assert_eq!(
        m.on_line("l").lines,
        vec!["menu: language switched to English"]
    );
    m.begin_turn(None);
    assert!(matches!(m.on_line("5").action, MenuAction::Inspect));
    assert_eq!(
        m.inspected(Err("com".to_string())).lines,
        vec!["menu: inspect failed: com"]
    );
}

#[test]
fn lines_around_a_quoted_choice() {
    let mut l = L10n::new(0x0409);
    assert_eq!(l.unknown_quoted("<x>"), "menu: unknown option <x> (valid: 0-5, L)");
    assert_eq!(
        l.watch_started_quoted("<n>"),
        "menu: watch started (line 2, group <n>)"
    );
    l.toggle();
    assert_eq!(l.unknown_quoted("<x>"), "menu：未知选项 <x>（可用：0-5、L）");
    assert_eq!(
        l.watch_started_quoted("<n>"),
        "menu：watch 已启动（线路二，分组 <n>）"
    );
}

#[test]
fn watcher_of_the_menu_runs_until_it_is_stopped() {
    let o = watch_options(WatchStrategy::Group, Some("work".to_string()));
    assert!(o.strategy == WatchStrategy::Group);
    assert_eq!(o.group_name, Some("work".to_string()));
    assert_eq!(
        (o.duration_secs, o.dry_run, o.verbose, o.stoppable, o.ring_log),
        (0, false, false, true, false)
    );
}
