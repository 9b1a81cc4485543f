use tbg_lite::autostart::{InstallOutcome, UninstallOutcome};
use tbg_lite::cli::{
    cmd_inspect, cmd_install, cmd_pin, cmd_restore, cmd_set, cmd_status, cmd_uninstall, cmd_unpin,
    cmd_watch, dispatch, install_command, install_lines, next_arg, pin_file_error,
    pin_path, report, set_lines,
    set_plan, status_autostart, status_map, status_windows, uninstall_lines, unknown_command,
    Command, PinPlace, SetMode,
};
use tbg_lite::restoremap::MapStatus;
use tbg_lite::winevent::WatchStrategy;
use tbg_lite::winutil::WindowFacts;

fn args(a: &[&str]) -> Vec<String> {
    a.iter().map(|s| s.to_string()).collect()
}

fn error<T>(r: Result<T, String>) -> String {
    match r {
        Err(e) => e,
        Ok(_) => panic!("an error was expected"),
    }
}

#[test]
fn commands_are_told_apart() {
    assert!(dispatch(&args(&[])) == Command::Menu);
    assert!(dispatch(&args(&["-h"])) == Command::Help);
    assert!(dispatch(&args(&["--version", "x"])) == Command::Version);
    assert!(dispatch(&args(&["inspect"])) == Command::Inspect);
    assert!(dispatch(&args(&["set"])) == Command::SetId);
    assert!(dispatch(&args(&["watch"])) == Command::Watch);
    assert!(dispatch(&args(&["restore"])) == Command::Restore);
    assert!(dispatch(&args(&["install"])) == Command::Install);
    assert!(dispatch(&args(&["uninstall"])) == Command::Uninstall);
    assert!(dispatch(&args(&["status"])) == Command::Status);
    assert!(dispatch(&args(&["pin"])) == Command::Pin);
    assert!(dispatch(&args(&["unpin"])) == Command::Unpin);
    assert!(dispatch(&args(&["Watch"])) == Command::Unknown);
    assert_eq!(
        unknown_command("x"),
        "tbg-lite: unknown command 'x' (see --help)"
    );
}

#[test]
fn exit_codes() {
    assert_eq!(report(&Ok(())), (0, None));
    assert_eq!(
        report(&Err("usage: x".to_string())),
        (2, Some("tbg-lite: error: usage: x".to_string()))
    );
    assert_eq!(
        report(&Err("restore: x".to_string())),
        (1, Some("tbg-lite: error: restore: x".to_string()))
    );
}

#[test]
fn values_of_flags() {
    let a = args(&["--hwnd", "1"]);
    assert_eq!(next_arg(&a, 1, "--hwnd").unwrap(), "1");
    assert_eq!(
        next_arg(&a, 2, "--hwnd").unwrap_err(),
        "usage: missing value for --hwnd"
    );
}

#[test]
fn inspect_arguments() {
    let a = cmd_inspect(&args(&["--all", "--hwnd", "0x10C12A8", "--json"]))
        .ok()
        .unwrap();
    assert_eq!((a.hwnd, a.all, a.json), (Some(0x10C12A8), true, true));
    assert_eq!(
        error(cmd_inspect(&args(&["--hwnd"]))),
        "usage: missing value for --hwnd"
    );
    assert_eq!(
        error(cmd_inspect(&args(&["--hwnd", "zz"]))),
        "usage: inspect: invalid HWND 'zz' (expected hex, e.g. 0x00000000010C12A8)"
    );
    assert_eq!(
        error(cmd_inspect(&args(&["--al"]))),
        "usage: inspect: unknown argument '--al'"
    );
}

#[test]
fn restore_arguments() {
    let a = cmd_restore(&args(&["--dry-run", "--hwnd", " 0XAB "]))
        .ok()
        .unwrap();
    assert_eq!((a.hwnd, a.dry_run), (Some(0xAB), true));
    assert_eq!(
        error(cmd_restore(&args(&["x"]))),
        "usage: restore: unknown argument 'x'"
    );
    assert_eq!(
        error(cmd_restore(&args(&["--hwnd", ""]))),
        "usage: restore: invalid HWND '' (expected hex, e.g. 0x00000000010C12A8)"
    );
}

#[test]
fn set_arguments() {
    let a = cmd_set(&args(&["--hwnd", "1", "--suffix"])).ok().unwrap();
    assert!(a.hwnd == 1 && matches!(a.mode, SetMode::Suffix));
    let a = cmd_set(&args(&["--value", "v", "--hwnd", "1"])).ok().unwrap();
    assert!(matches!(a.mode, SetMode::Value(v) if v == "v"));
    assert_eq!(
        error(cmd_set(&args(&["--suffix"]))),
        "usage: set: --hwnd <HEX> is required"
    );
    assert_eq!(
        error(cmd_set(&args(&["--hwnd", "1"]))),
        "usage: set: exactly one of --suffix / --value is required"
    );
    assert_eq!(
        error(cmd_set(&args(&["--hwnd", "1", "--suffix", "--value", "v"]))),
        "usage: set: exactly one of --suffix / --value is required"
    );
    assert_eq!(
        error(cmd_set(&args(&["--hwnd", "1", "--values"]))),
        "usage: set: unknown argument '--values'"
    );
    assert_eq!(
        error(cmd_set(&args(&["--suffix", "--hwnd", "0xg"]))),
        "usage: set: invalid HWND '0xg' (expected hex, e.g. 0x00000000010C12A8)"
    );
}

#[test]
fn set_plans() {
    let suffix = cmd_set(&args(&["--hwnd", "FF", "--suffix"])).ok().unwrap();
    let p = set_plan(&suffix, &Ok("App".to_string())).ok().unwrap();
    assert_eq!((p.value.as_str(), p.warning), ("App~TBG~wFF", None));
    let p = set_plan(&suffix, &Ok("a".repeat(200))).ok().unwrap();
    assert_eq!(
        p.warning,
        Some(
            "set: warning: original AUMID too long, kept 121 chars (UTF-16 budget 121) "
                .to_string()
        )
    );
    assert_eq!(
        error(set_plan(&suffix, &Ok("App~TBG~w1".to_string()))),
        "set: 0xFF already carries the suffix marker '~TBG~w'"
    );
    assert_eq!(
        error(set_plan(&suffix, &Err("gone".to_string()))),
        "set: read AUMID failed: gone"
    );
    let value = cmd_set(&args(&["--hwnd", "FF", "--value", "x\ty"])).ok().unwrap();
    assert_eq!(
        error(set_plan(&value, &Ok("App".to_string()))),
        "usage: set: invalid --value: value must not contain control characters (tab / newline / others < U+0020)"
    );
    let value = cmd_set(&args(&["--hwnd", "FF", "--value", "x~TBG~w1"])).ok().unwrap();
    let p = set_plan(&value, &Ok("App".to_string())).ok().unwrap();
    assert_eq!(p.value, "x~TBG~w1");
    assert_eq!(
        set_lines("", "App", "1.2ms")[0],
        "AUMID: \"<empty>\" -> \"App\""
    );
}

#[test]
fn watch_arguments() {
    let o = cmd_watch(&args(&[])).ok().unwrap();
    assert_eq!(
        (o.duration_secs, o.dry_run, o.verbose, o.ring_log, o.stoppable),
        (60, false, false, false, false)
    );
    assert!(o.strategy == WatchStrategy::Ungroup && o.group_name.is_none());
    let o = cmd_watch(&args(&[
        "--strategy",
        "group",
        "--group",
        "work",
        "--duration",
        "0",
        "--dry-run",
        "--verbose",
        "--log",
    ]))
    .ok()
    .unwrap();
    assert_eq!(
        (o.duration_secs, o.dry_run, o.verbose, o.ring_log),
        (0, true, true, true)
    );
    assert!(o.strategy == WatchStrategy::Group);
    assert_eq!(o.group_name, Some("work".to_string()));
    assert_eq!(
        error(cmd_watch(&args(&["--duration", "-1"]))),
        "usage: watch: invalid duration '-1' (expected seconds)"
    );
    assert_eq!(
        error(cmd_watch(&args(&["--strategy", "x"]))),
        "usage: watch: unknown strategy 'x' (expected ungroup|group)"
    );
    assert_eq!(
        error(cmd_watch(&args(&["--strategy", "group"]))),
        "usage: watch: --strategy group requires --group <NAME>"
    );
    assert_eq!(
        error(cmd_watch(&args(&["--group", "work"]))),
        "usage: watch: --group is only valid together with --strategy group"
    );
    assert_eq!(
        error(cmd_watch(&args(&["--strategy", "group", "--group", "a b"]))),
        "usage: watch: invalid group name 'a b' (allowed: 1-32 chars of A-Z a-z 0-9 . _ -)"
    );
    assert_eq!(
        error(cmd_watch(&args(&["x"]))),
        "usage: watch: unknown argument 'x'"
    );
}

#[test]
fn installed_command_runs_the_watch() {
    let a = cmd_install(&args(&["--strategy", "group", "--group", "work"]))
        .ok()
        .unwrap();
    let c = install_command(r"\\?\C:\Program Files\x\..\tbg-lite.exe", &a);
    assert_eq!(
        c,
        "\"C:\\Program Files\\tbg-lite.exe\" watch --strategy group --group work --duration 0"
    );
    let a = cmd_install(&args(&[])).ok().unwrap();
    assert_eq!(
        install_command("a.exe", &a),
        "\"a.exe\" watch --strategy ungroup --duration 0"
    );
    let tail = args(&["--strategy", "group", "--group", "work", "--duration", "0"]);
    assert!(cmd_watch(&tail).is_ok());
    assert_eq!(
        error(cmd_install(&args(&["--group", "x"]))),
        "usage: install: --group is only valid together with --strategy group"
    );
    assert_eq!(
        error(cmd_install(&args(&["--duration", "1"]))),
        "usage: install: unknown argument '--duration'"
    );
}

#[test]
fn install_and_uninstall_lines() {
    assert_eq!(
        install_lines(&InstallOutcome::New, "c"),
        vec![
            "autostart registered (HKCU Run value 'tbg-lite')",
            "command : c",
            "note    : the registered watch runs until stopped (--duration 0); resident-host lifecycle is task 20",
        ]
    );
    assert_eq!(
        install_lines(&InstallOutcome::Replaced("o".to_string()), "c")[1],
        "previous: o"
    );
    assert_eq!(
        uninstall_lines(&UninstallOutcome::Removed("o".to_string())),
        vec![
            "autostart removed (HKCU Run value 'tbg-lite')",
            "was     : o"
        ]
    );
    assert_eq!(
        uninstall_lines(&UninstallOutcome::NotInstalled),
        vec!["autostart not installed; nothing to remove"]
    );
    assert!(cmd_uninstall(&args(&[])).is_ok());
    assert_eq!(
        error(cmd_uninstall(&args(&["x"]))),
        "usage: uninstall: unknown argument 'x'"
    );
}

#[test]
fn status_lines() {
    assert!(cmd_status(&args(&[])).is_ok());
    assert_eq!(
        error(cmd_status(&args(&["x"]))),
        "usage: status: unknown argument 'x'"
    );
    assert_eq!(
        status_autostart(&Some("c".to_string())),
        "autostart  : installed — c"
    );
    assert_eq!(status_autostart(&None), "autostart  : not installed");
    assert_eq!(
        status_map(&Ok(MapStatus::Absent), "p"),
        "restore map: absent (p)"
    );
    assert_eq!(
        status_map(&Ok(MapStatus::Intact { entries: 3 }), "p"),
        "restore map: 3 entries (p)"
    );
    assert_eq!(
        status_map(&Ok(MapStatus::Corrupt("e".to_string())), "p"),
        "restore map: CORRUPT — e (p)"
    );
    assert_eq!(
        status_map(&Err("e".to_string()), "p"),
        "restore map: unavailable (e)"
    );
}

#[test]
fn status_counts_marked_windows() {
    let w = |title: &str, aumid: Result<&str, &str>| WindowFacts {
        is_root: true,
        visible: true,
        title: title.to_string(),
        class: "C".to_string(),
        ex_style: 0,
        cloak: None,
        pid: 1,
        aumid: aumid.map(|s| s.to_string()).map_err(|s| s.to_string()),
    };
    assert_eq!(
        status_windows(&vec![
            (1, w("a", Ok("App~TBG~w1"))),
            (2, w("a", Ok("App~TBG~w1"))),
            (3, w("a", Ok("TBG.Group.x"))),
            (4, w("", Ok("TBG.Group.x"))),
            (5, w("a", Err("e"))),
        ]),
        vec![
            "marked     : line1(ungroup)=1 line2(group)=1 (total 2)",
            "             (1 app window(s) had an unreadable AUMID)",
        ]
    );
    assert_eq!(
        status_windows(&Vec::new()),
        vec!["marked     : line1(ungroup)=0 line2(group)=0 (total 0)"]
    );
}

#[test]
fn pin_arguments() {
    let p = cmd_pin(&args(&["--group", "work", "--target", "t.exe", "--icon", "i.ico,2"]))
        .ok()
        .unwrap();
    assert_eq!(p.aumid, "TBG.Group.work");
    assert_eq!(p.icon, Some(("i.ico".to_string(), 2)));
    assert_eq!(p.arguments, None);
    assert_eq!(
        pin_path(&p, r"C:\L\tbg-lite", r"C:\R"),
        r"C:\L\tbg-lite\pin\work.lnk"
    );
    let p = cmd_pin(&args(&[
        "--to-taskbar",
        "--group",
        "work",
        "--target",
        "t",
        "--args",
        "-x",
    ]))
    .ok()
    .unwrap();
    assert!(matches!(p.place, PinPlace::Taskbar));
    assert_eq!(p.arguments, Some("-x".to_string()));
    assert_eq!(
        pin_path(&p, r"C:\L", r"C:\R"),
        r"C:\R\Microsoft\Internet Explorer\Quick Launch\User Pinned\TaskBar\work.lnk"
    );
    let p = cmd_pin(&args(&["--group", "work", "--target", "t", "--out", r"D:\"]))
        .ok()
        .unwrap();
    assert_eq!(pin_path(&p, "", ""), r"D:\work.lnk");
    assert_eq!(
        error(cmd_pin(&args(&["--target", "t"]))),
        "usage: pin: --group <NAME> is required"
    );
    assert_eq!(
        error(cmd_pin(&args(&["--group", "work"]))),
        "usage: pin: --target <PATH> is required"
    );
    assert_eq!(
        error(cmd_pin(&args(&["--group", "a b", "--target", "t"]))),
        "usage: pin: invalid group name 'a b' (allowed: 1-32 chars of A-Z a-z 0-9 . _ -)"
    );
    assert_eq!(
        error(cmd_pin(&args(&[
            "--group",
            "a",
            "--target",
            "t",
            "--out",
            "d",
            "--to-taskbar"
        ]))),
        "usage: pin: --out and --to-taskbar are mutually exclusive"
    );
    assert_eq!(
        error(cmd_pin(&args(&["--group", "a", "--target", "t", "--icon", ",1"]))),
        "usage: pin: icon path must not be empty"
    );
    assert_eq!(
        error(cmd_pin(&args(&["x"]))),
        "usage: pin: unknown argument 'x'"
    );
}

#[test]
fn unpin_arguments() {
    assert_eq!(cmd_unpin(&args(&["--group", "work"])).unwrap(), "work");
    assert_eq!(
        error(cmd_unpin(&args(&[]))),
        "usage: unpin: --group <NAME> is required"
    );
    assert_eq!(
        error(cmd_unpin(&args(&["--group", ""]))),
        "usage: unpin: invalid group name '' (allowed: 1-32 chars of A-Z a-z 0-9 . _ -)"
    );
    assert_eq!(
        error(cmd_unpin(&args(&["x"]))),
        "usage: unpin: unknown argument 'x'"
    );
}

#[test]
fn illegal_arguments_exit_with_two() {
    let zz = args(&["--hwnd", "zz"]);
    for e in [
        error(cmd_inspect(&zz)),
        error(cmd_restore(&zz)),
        error(cmd_set(&zz)),
        error(cmd_watch(&args(&["--duration", "x"]))),
        error(cmd_install(&args(&["--strategy", "x"]))),
        error(cmd_uninstall(&args(&["x"]))),
        error(cmd_status(&args(&["x"]))),
        error(cmd_pin(&args(&["--group", "a b"]))),
        error(cmd_unpin(&args(&[]))),
        pin_file_error("--target", "x"),
    ] {
        assert_eq!(report(&Err(e)).0, 2);
    }
    assert_eq!(report(&Err("restore: 1 window(s) failed".to_string())).0, 1);
    assert_eq!(
        pin_file_error("--icon", "a.ico"),
        "usage: pin: --icon 'a.ico' is not an existing file"
    );
}
