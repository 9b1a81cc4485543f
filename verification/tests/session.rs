use tbg_lite::autostart::UninstallOutcome;
use tbg_lite::pump::{current_shell_pid, Pump, Timer, Turn, SECOND};
use tbg_lite::session::{Session, SessionAction, SessionEvent, SessionReply};
use tbg_lite::singleinstance::acquire;
use tbg_lite::winevent::{WatchOptions, WatchStrategy};

fn options(strategy: WatchStrategy, group: Option<&str>) -> WatchOptions {
    WatchOptions {
        duration_secs: 10,
        dry_run: false,
        verbose: false,
        strategy,
        group_name: match group {
            Some(g) => Some(g.to_string()),
            None => None,
        },
        stoppable: true,
        ring_log: true,
    }
}

fn running() -> Session {
    let (mut s, r) = Session::begin(options(WatchStrategy::Ungroup, None), true, false);
    assert_eq!(
        r.log,
        vec!["watch start: strategy=ungroup group=None duration=10s dry_run=false"]
    );
    assert!(matches!(r.action, SessionAction::InitCom));
    let r = s.advance(SessionEvent::ComReady(Ok(())), 0);
    assert!(matches!(r.action, SessionAction::SetHook(0x8000)));
    let r = s.advance(SessionEvent::HookSet(true), 0);
    assert!(matches!(r.action, SessionAction::SetHook(0x8002)));
    let r = s.advance(SessionEvent::HookSet(true), 0);
    assert!(matches!(r.action, SessionAction::SetHook(0x800C)));
    let r = s.advance(SessionEvent::HookSet(true), 0);
    assert!(matches!(r.action, SessionAction::SetHook(0x8001)));
    let r = s.advance(SessionEvent::HookSet(true), 0);
    assert!(matches!(r.action, SessionAction::StartupSweep));
    assert_eq!(r.out.len(), 8);
    assert_eq!(r.out[6], "duration: 10s (Ctrl+C = hard exit without stats)");
    let r = s.advance(SessionEvent::Swept(Ok(())), 0);
    assert_eq!(r.log, vec!["startup sweep done"]);
    let r = s.advance(SessionEvent::ShellSeen(Some(7)), 100 * SECOND);
    assert!(matches!(r.action, SessionAction::Check));
    s
}

fn finish_error(r: SessionReply) -> String {
    match r.action {
        SessionAction::Finish(Err(e)) => e,
        _ => panic!("the end with an error was expected"),
    }
}

#[test]
fn session_runs_until_its_time_is_over() {
    let mut s = running();
    let r = s.advance(SessionEvent::Tick(false), 100 * SECOND);
    assert!(matches!(r.action, SessionAction::Wait(1000)));
    let r = s.advance(SessionEvent::Waited, 101 * SECOND);
    assert!(matches!(r.action, SessionAction::Check));
    s.advance(SessionEvent::Tick(false), 101 * SECOND);
    let r = s.advance(SessionEvent::Waited, 105 * SECOND);
    assert!(matches!(r.action, SessionAction::ReadShell));
    let r = s.advance(SessionEvent::ShellSeen(None), 105 * SECOND);
    assert!(matches!(r.action, SessionAction::Reverify));
    let r = s.advance(SessionEvent::Reverified, 105 * SECOND);
    assert!(matches!(r.action, SessionAction::Heartbeat));
    let r = s.advance(SessionEvent::Beaten, 105 * SECOND);
    assert!(matches!(r.action, SessionAction::Check));
    let r = s.advance(SessionEvent::Tick(false), 109 * SECOND + SECOND / 2);
    assert!(matches!(r.action, SessionAction::Wait(500)));
    let r = s.advance(SessionEvent::Waited, 110 * SECOND);
    assert!(matches!(r.action, SessionAction::ReadShell));
    let r = s.advance(SessionEvent::ShellSeen(Some(8)), 110 * SECOND);
    assert_eq!(
        r.out,
        vec!["watch: shell restart detected (task 20): explorer pid 7 -> 8; re-sweeping all windows"]
    );
    assert_eq!(r.log, vec!["shell restart: explorer pid 7 -> 8"]);
    assert!(matches!(r.action, SessionAction::Resweep));
    let r = s.advance(SessionEvent::Swept(Ok(())), 110 * SECOND);
    assert_eq!(r.log, vec!["resweep done"]);
    assert!(matches!(r.action, SessionAction::Reverify));
    s.advance(SessionEvent::Reverified, 110 * SECOND);
    s.advance(SessionEvent::Beaten, 110 * SECOND);
    let r = s.advance(SessionEvent::Tick(false), 110 * SECOND);
    assert!(r.out.is_empty());
    assert!(matches!(r.action, SessionAction::RemoveHooks));
    let r = s.advance(SessionEvent::Unhooked(1), 0);
    assert_eq!(r.err, vec!["watch: warning: UnhookWinEvent failed"]);
    assert!(matches!(r.action, SessionAction::FinalScan));
    let r = s.advance(SessionEvent::Reported, 0);
    assert!(matches!(r.action, SessionAction::EndClean));
    let r = s.advance(SessionEvent::Cleaned, 0);
    assert_eq!(r.log, vec!["watch stop (graceful)"]);
    assert!(matches!(r.action, SessionAction::Finish(Ok(()))));
    let r = s.advance(SessionEvent::Cleaned, 0);
    assert!(matches!(r.action, SessionAction::Stay));
}

#[test]
fn session_stops_on_request() {
    let mut s = running();
    let r = s.advance(SessionEvent::Tick(true), 100 * SECOND);
    assert_eq!(
        r.out,
        vec![
            "",
            "watch: stop requested (task 14) — removing hooks and running the final scan"
        ]
    );
    assert!(matches!(r.action, SessionAction::RemoveHooks));
}

#[test]
fn session_gives_up_without_com_or_mutex() {
    let (mut s, _) = Session::begin(options(WatchStrategy::Group, Some("work")), false, false);
    let r = s.advance(SessionEvent::ComReady(Ok(())), 0);
    assert!(matches!(r.action, SessionAction::AcquireMutex));
    let r = s.advance(SessionEvent::MutexHeld(Err("held".to_string())), 0);
    assert_eq!(finish_error(r), "held");
    let (mut s, _) = Session::begin(options(WatchStrategy::Group, Some("work")), false, false);
    let r = s.advance(SessionEvent::ComReady(Err("com".to_string())), 0);
    assert_eq!(finish_error(r), "com");
    let (mut s, _) = Session::begin(options(WatchStrategy::Group, None), false, false);
    s.advance(SessionEvent::ComReady(Ok(())), 0);
    let r = s.advance(SessionEvent::MutexHeld(Ok(())), 0);
    assert_eq!(
        finish_error(r),
        "invalid group name '' (allowed: 1-32 chars of A-Z a-z 0-9 . _ -)"
    );
}

#[test]
fn session_needs_the_map_on_the_group_line() {
    let (mut s, r) = Session::begin(options(WatchStrategy::Group, Some("work")), true, false);
    assert_eq!(
        r.log,
        vec!["watch start: strategy=group group=Some(\"work\") duration=10s dry_run=false"]
    );
    s.advance(SessionEvent::ComReady(Ok(())), 0);
    let r = s.advance(SessionEvent::MutexHeld(Ok(())), 0);
    assert!(matches!(r.action, SessionAction::LoadMap));
    assert_eq!(s.group_value, "TBG.Group.work");
    let r = s.advance(SessionEvent::MapLoaded(Err("corrupt".to_string())), 0);
    assert_eq!(finish_error(r), "corrupt");
}

#[test]
fn session_removes_hooks_that_were_set() {
    let (mut s, _) = Session::begin(options(WatchStrategy::Ungroup, None), false, false);
    s.advance(SessionEvent::ComReady(Ok(())), 0);
    s.advance(SessionEvent::HookSet(true), 0);
    s.advance(SessionEvent::HookSet(true), 0);
    let r = s.advance(SessionEvent::HookSet(false), 0);
    assert!(matches!(r.action, SessionAction::RemoveHooks));
    let r = s.advance(SessionEvent::Unhooked(2), 0);
    assert!(r.err.is_empty());
    assert_eq!(
        finish_error(r),
        "watch: SetWinEventHook failed for event 0x800c"
    );
}

#[test]
fn session_ends_where_the_sweep_fails() {
    let (mut s, _) = Session::begin(options(WatchStrategy::Ungroup, None), false, false);
    s.advance(SessionEvent::ComReady(Ok(())), 0);
    for _ in 0..4 {
        s.advance(SessionEvent::HookSet(true), 0);
    }
    let r = s.advance(SessionEvent::Swept(Err("enum".to_string())), 0);
    assert!(matches!(r.action, SessionAction::RemoveHooks));
    let r = s.advance(SessionEvent::Unhooked(0), 0);
    assert_eq!(finish_error(r), "watch: startup sweep failed: enum");
}

#[test]
fn tripped_breaker_removes_the_autostart() {
    let (mut s, r) = Session::begin(options(WatchStrategy::Ungroup, None), true, true);
    assert_eq!(
        r.err,
        vec!["watch: circuit breaker (task 20): 3 consecutive abnormal exits detected - removing the autostart entry to break a potential boot loop"]
    );
    assert!(matches!(r.action, SessionAction::RemoveAutostart));
    let r = s.advance(
        SessionEvent::AutostartRemoved(Ok(UninstallOutcome::Removed("c".to_string()))),
        0,
    );
    assert_eq!(
        r.err,
        vec!["watch: circuit breaker: autostart removed (was: c)"]
    );
    assert_eq!(r.log.len(), 2);
    assert!(matches!(r.action, SessionAction::InitCom));
}

#[test]
fn group_banner_names_the_shared_id() {
    let (mut s, _) = Session::begin(options(WatchStrategy::Group, Some("work")), true, false);
    s.advance(SessionEvent::ComReady(Ok(())), 0);
    s.advance(SessionEvent::MutexHeld(Ok(())), 0);
    s.advance(SessionEvent::MapLoaded(Ok(())), 0);
    for _ in 0..3 {
        s.advance(SessionEvent::HookSet(true), 0);
    }
    let r = s.advance(SessionEvent::HookSet(true), 0);
    assert_eq!(r.out[1], "strategy : group (shared AUMID, line 2)");
    assert_eq!(
        r.out[2],
        "log      : ring log enabled (%LOCALAPPDATA%\\tbg-lite\\tbg.log), 256 KiB cap (task 20)"
    );
    assert_eq!(
        r.out[4],
        "group    : every candidate window (incl. pre-existing) gets the shared AUMID \"TBG.Group.work\""
    );
}

#[test]
fn pump_waits() {
    assert!(Pump::new(0, false, None).turn(5 * SECOND, true) == Turn::Wait(2000));
    assert!(Pump::new(0, true, None).turn(5 * SECOND, false) == Turn::Wait(1000));
    assert!(Pump::new(0, true, None).turn(5 * SECOND, true) == Turn::Stopped);
    assert!(Pump::new(5, true, None).turn(5 * SECOND, false) == Turn::TimeUp);
    assert!(Pump::new(5, false, None).turn(5 * SECOND - 1, false) == Turn::Wait(0));
    assert!(Pump::new(u64::MAX, false, None).turn(0, false) == Turn::Wait(1000));
}

#[test]
fn timer_is_due_after_its_span() {
    let mut t = Timer::new(2);
    assert!(!t.due(2 * SECOND - 1));
    assert!(t.due(2 * SECOND));
    assert!(!t.due(4 * SECOND - 1));
    assert!(t.due(4 * SECOND));
    assert!(!t.due(0));
}

#[test]
fn shell_restart_is_a_change_of_process() {
    let mut p = Pump::new(0, false, None);
    assert_eq!(p.shell_seen(None), None);
    assert_eq!(p.shell_seen(Some(5)), None);
    assert_eq!(p.shell_seen(None), None);
    assert_eq!(p.shell_seen(Some(6)), Some((5, 6)));
    assert_eq!(p.shell_seen(Some(6)), None);
    assert_eq!(current_shell_pid(0, 5), None);
    assert_eq!(current_shell_pid(1, 0), None);
    assert_eq!(current_shell_pid(1, 5), Some(5));
}

#[test]
fn mutex_has_one_holder() {
    assert!(acquire(Ok(()), 0).is_ok());
    assert_eq!(
        acquire(Ok(()), 183).unwrap_err(),
        "another tbg-lite instance holds the restore map (Local\\tbg-lite.map); stop it before running this command (concurrency guard, audit BUG-02)"
    );
    assert_eq!(
        acquire(Err("denied".to_string()), 183).unwrap_err(),
        "cannot create mutex 'Local\\tbg-lite.map': denied"
    );
}
