use tbg_lite::health::{account, begin, parse, render, RunningState};

fn running(start: u64, heartbeat: u64) -> Option<RunningState> {
    Some(RunningState {
        start,
        heartbeat: Some(heartbeat),
    })
}

fn running_v1(start: u64) -> Option<RunningState> {
    Some(RunningState {
        start,
        heartbeat: None,
    })
}

#[test]
fn account_short_abnormal_exit_increments() {
    assert_eq!(account(1000, running(990, 1000), 0), (1, false));
    assert_eq!(account(1000, running(975, 985), 2), (0, true));
}

#[test]
fn account_boot_loop_minutes_gap_still_counts() {
    let boot1 = 1_700_000_000u64;
    let boot2 = boot1 + 600;
    let (s1, t1) = account(boot2, running(boot1, boot1 + 1), 0);
    assert_eq!((s1, t1), (1, false));
    let (s2, t2) = account(boot2 + 600, running(boot2, boot2 + 2), s1);
    assert_eq!((s2, t2), (2, false));
    let (s3, t3) = account(boot2 + 1200, running(boot2 + 600, boot2 + 600 + 3), s2);
    assert_eq!((s3, t3), (0, true));
}

#[test]
fn account_long_lived_kill_resets() {
    assert_eq!(account(9_999_999, running(880, 1000), 2), (0, false));
    assert_eq!(account(1000, running(970, 1000), 2), (0, false));
}

#[test]
fn account_clean_finish_keeps_streak() {
    assert_eq!(account(1000, None, 0), (0, false));
    assert_eq!(account(1000, None, 2), (2, false));
}

#[test]
fn account_trips_exactly_at_threshold() {
    let (_, t1) = account(1000, running(995, 1000), 0);
    assert!(!t1);
    let (_, t2) = account(2000, running(1995, 2000), 1);
    assert!(!t2);
    let (s3, t3) = account(3000, running(2995, 3000), 2);
    assert!(t3);
    assert_eq!(s3, 0);
}

#[test]
fn account_v1_running_line_keeps_legacy_semantics() {
    assert_eq!(account(1000, running_v1(880), 2), (0, false));
    assert_eq!(account(1000, running_v1(995), 0), (1, false));
}

#[test]
fn account_heartbeat_before_start_clamped() {
    assert_eq!(account(1000, running(1000, 500), 0), (1, false));
}

#[test]
fn parse_render_roundtrip() {
    let text = render(2, running(1_700_000_000, 1_700_000_500));
    assert_eq!(parse(&text), (2, running(1_700_000_000, 1_700_000_500)));
    let text2 = render(0, None);
    assert_eq!(parse(&text2), (0, None));
    let junk = "# tbg-lite health v1\nabnormal_streak\tzz\nrunning\tabc\nwhatever\tx\n";
    assert_eq!(parse(junk), (0, None));
    assert_eq!(parse("abnormal_streak\t1\nrunning\t42\n"), (1, running_v1(42)));
    assert_eq!(
        parse("running\t10\nrunning\t20\t30\n"),
        (0, running(20, 30))
    );
    assert_eq!(parse("running\t20\tzz\n"), (0, running_v1(20)));
}

#[test]
fn account_streak_does_not_wrap() {
    assert_eq!(account(1000, running(995, 1000), u32::MAX), (0, true));
}

#[test]
fn render_writes_the_three_lines() {
    assert_eq!(
        render(1, running(7, 9)),
        "# tbg-lite health v1\nabnormal_streak\t1\nrunning\t7\t9\n"
    );
    assert_eq!(
        render(1, running_v1(7)),
        "# tbg-lite health v1\nabnormal_streak\t1\nrunning\t7\n"
    );
    assert_eq!(
        render(0, None),
        "# tbg-lite health v1\nabnormal_streak\t0\n"
    );
}

#[test]
fn parse_tolerates_blanks_and_carriage_returns() {
    assert_eq!(
        parse(" abnormal_streak \t +2 \r\nrunning\t 5 \t 6 \tmore\r\n"),
        (2, running(5, 6))
    );
}

#[test]
fn runs_that_die_at_once_trip_the_breaker_at_the_fourth_start() {
    let (first, file) = begin(1000, None);
    assert!(!first.tripped);
    assert_eq!(file, render(0, running(1000, 1000)));
    let (second, file) = begin(2000, Some(&file));
    assert!(!second.tripped);
    let file2 = second.heartbeat(2005);
    assert_eq!(file2, render(1, running(2000, 2005)));
    let (third, _) = begin(3000, Some(&file2));
    assert!(!third.tripped);
    let (fourth, file4) = begin(4000, Some(&third.heartbeat(3001)));
    assert!(fourth.tripped);
    assert_eq!(file4, render(0, running(4000, 4000)));
    assert!(file != file4);
}

#[test]
fn a_clean_end_clears_the_streak() {
    let (h, _) = begin(1000, Some(&render(2, None)));
    assert_eq!(h.streak, 2);
    let end = h.end_clean();
    assert_eq!(end, render(0, None));
    let (next, _) = begin(1001, Some(&end));
    assert_eq!((next.streak, next.tripped), (0, false));
}
