//! What the watcher prints when it starts, when it ends and when something out of
//! the ordinary happens.

use vstd::prelude::*;

use crate::appid;
use crate::autostart::UninstallOutcome;
use crate::health;
use crate::num;
use crate::restoremap;
use crate::ringlog;
use crate::text;
use crate::winevent;
use crate::winevent::WatchOptions;
use crate::winevent::WatchStrategy;
use crate::winevent::WatcherState;
use crate::winutil::WindowFacts;

verus! {

/// A window that the scan at the end has come to.
pub struct Seen {
    pub key: usize,
    pub facts: WindowFacts,
}

/// What the scan at the end makes of a window.
#[derive(Clone, Copy, PartialEq, Eq, Structural)]
pub enum Fate {
    /// It was there at the start and has not been dealt with: of no interest.
    Outside,
    /// Its id cannot be read.
    Unreadable,
    /// It carries the mark of the line.
    Marked,
    /// It was written to, and the mark is gone.
    Reverted,
    /// It was done with without a write, and carries no mark.
    Skipped,
    /// It is a new application window and carries no mark.
    Missed,
    /// It is new and carries no mark, but needs none.
    Unmarked,
}

// ---------------------------------------------------------------------------
// Models
// ---------------------------------------------------------------------------

/// A counter in digits.
pub open spec fn digits(n: u64) -> Seq<char> {
    num::decimal(n as nat)
}

/// A truth value in words.
pub open spec fn truth(b: bool) -> Seq<char> {
    if b {
        "true"@
    } else {
        "false"@
    }
}

/// A number of seconds as a span of time.
pub open spec fn span_text(secs: u64) -> Seq<char> {
    if secs == 0 {
        "0ns"@
    } else {
        digits(secs) + "s"@
    }
}

/// Whether an id carries the mark of a line.
pub open spec fn carries_mark(strategy: WatchStrategy, aumid: Seq<char>) -> bool {
    match strategy {
        WatchStrategy::Ungroup => appid::has_marker(aumid),
        WatchStrategy::Group => appid::is_group(aumid),
    }
}

/// What the scan at the end makes of a window.
pub open spec fn fate_of(m: winevent::Watch, w: Seen) -> Fate {
    let rewritten = m.rewritten.contains(w.key);
    let handled = m.handled.contains(w.key);
    if !rewritten && !handled && m.baseline.contains(w.key) {
        Fate::Outside
    } else {
        match w.facts.aumid {
            Err(_) => Fate::Unreadable,
            Ok(a) => if carries_mark(m.strategy, a@) {
                Fate::Marked
            } else if rewritten {
                Fate::Reverted
            } else if handled {
                Fate::Skipped
            } else if w.facts.app_window() && !w.facts.shell_window() && !w.facts.cloaked() {
                Fate::Missed
            } else {
                Fate::Unmarked
            },
        }
    }
}

/// How many of the windows have a fate.
pub open spec fn count(m: winevent::Watch, ws: Seq<Seen>, fate: Fate) -> nat
    decreases ws.len(),
{
    if ws.len() == 0 {
        0
    } else if fate_of(m, ws.last()) == fate {
        count(m, ws.drop_last(), fate) + 1
    } else {
        count(m, ws.drop_last(), fate)
    }
}

/// The line about a window; its id is in quotes.
pub open spec fn listed_text(label: Seq<char>, window: Seq<char>, aumid: Seq<char>) -> Seq<char> {
    label + window + " aumid="@ + aumid
}

/// The lines about the windows that have a fate, in their order.
pub open spec fn listed(m: winevent::Watch, ws: Seq<Seen>, fate: Fate, label: Seq<char>) -> Seq<
    Seq<char>,
>
    decreases ws.len(),
{
    if ws.len() == 0 {
        Seq::empty()
    } else {
        let before = listed(m, ws.drop_last(), fate, label);
        let w = ws.last();
        if fate_of(m, w) == fate {
            before.push(
                listed_text(
                    label,
                    winevent::window_text(w.key, w.facts),
                    text::debug_text(w.facts.aumid->Ok_0@),
                ),
            )
        } else {
            before
        }
    }
}

/// The note at the end of the report.
pub open spec fn closing_note() -> Seq<char> {
    "note: taskbar button races/jumps must be observed manually on real Windows"@
}

/// The counts of events and skips.
pub open spec fn count_lines(m: winevent::Watch) -> Seq<Seq<char>> {
    let s = m.stats;
    seq![
        Seq::empty(),
        "==== watch stats (task 6/8/13, docs/plan.md v2 §3, strategy: "@
            + winevent::strategy_label(m.strategy) + ") ===="@,
        "events (per event): CREATE="@ + digits(s.events_create) + " SHOW="@ + digits(
            s.events_show,
        ) + " NAMECHANGE="@ + digits(s.events_namechange) + " DESTROY(tracked)="@ + digits(
            s.events_destroy_tracked,
        ),
        "startup sweep (task 13): pre-existing rewritten="@ + digits(s.startup_sweep_rewritten)
            + " already-marked="@ + digits(s.startup_sweep_marked),
        "shell restarts (task 20)             : "@ + digits(s.shell_restarts)
            + " (resweep rewritten="@ + digits(s.resweep_rewritten) + " already-marked="@ + digits(
            s.resweep_marked,
        ) + ")"@,
        "baseline top-level windows at start : "@ + digits(m.baseline_count),
        "new-window candidates         : "@ + digits(s.candidates),
        "skips (per event) : dupe="@ + digits(s.skipped_dupe) + " not_app_window="@ + digits(
            s.skipped_not_app_window,
        ) + " shell="@ + digits(s.skipped_shell) + " cloaked="@ + digits(s.skipped_cloaked)
            + " read_fail="@ + digits(s.skipped_read_fail) + " already_marked="@ + digits(
            s.skipped_already_marked,
        ) + " cross_line="@ + digits(s.skipped_cross_line),
    ]
}

/// The report of a dry run.
pub open spec fn dry_report(m: winevent::Watch) -> Seq<Seq<char>> {
    count_lines(m).push(
        "dry-run    : "@ + digits(m.stats.dry_run_hits)
            + " candidates logged, nothing written"@,
    ).push(closing_note())
}

/// The counts of writes.
pub open spec fn write_lines(m: winevent::Watch) -> Seq<Seq<char>> {
    count_lines(m).push(
        "rewritten  : "@ + digits(m.stats.rewritten) + " (original AUMID truncated: "@ + digits(
            m.stats.truncated,
        ) + ")"@,
    ).push("write fails: "@ + digits(m.stats.write_fail)).push(
        "reasserted (marker lost & re-applied, task 28): "@ + digits(m.stats.reasserted),
    )
}

/// What the scan at the end found.
pub open spec fn scan_lines(m: winevent::Watch, ws: Seq<Seen>) -> Seq<Seq<char>> {
    let front = write_lines(m).push(
        "alive with marker                 : "@ + num::decimal(count(m, ws, Fate::Marked)),
    ).push("reverted (app rewrote its AUMID)  : "@ + num::decimal(count(m, ws, Fate::Reverted)))
        + listed(m, ws, Fate::Reverted, "  reverted: "@);
    let more = front.push(
        "missed (new app w/o marker)       : "@ + num::decimal(count(m, ws, Fate::Missed)),
    ) + listed(m, ws, Fate::Missed, "  missed: "@);
    let unreadable = count(m, ws, Fate::Unreadable);
    if unreadable > 0 {
        more.push("(scan: "@ + num::decimal(unreadable) + " windows unreadable)"@)
    } else {
        more
    }
}

/// The report at the end.
pub open spec fn report(m: winevent::Watch, ws: Seq<Seen>) -> Seq<Seq<char>> {
    if m.dry_run {
        dry_report(m)
    } else {
        let body = scan_lines(m, ws);
        let entries: nat = match m.map {
            Some(es) => es.len(),
            None => 0,
        };
        (if m.strategy is Group {
            body.push(
                "restore-map entries alive         : "@ + num::decimal(entries) + " ("@
                    + restoremap::MAP_FILE_NAME@ + ", %LOCALAPPDATA%\\tbg-lite)"@,
            )
        } else {
            body
        }).push(closing_note())
    }
}

/// The name of the group, in quotes, as it is set or not.
pub open spec fn group_shown(name: Option<Seq<char>>) -> Seq<char> {
    match name {
        Some(n) => "Some("@ + n + ")"@,
        None => "None"@,
    }
}

/// What is said of the time for which the watcher runs.
pub open spec fn duration_line(opts: WatchOptions) -> Seq<char> {
    if opts.duration_secs > 0 {
        "duration: "@ + span_text(opts.duration_secs) + " (Ctrl+C = hard exit without stats)"@
    } else if opts.stoppable {
        "duration: until stopped from the interactive menu (graceful stop: hooks removed + stats printed)"@
    } else {
        "duration: until Ctrl+C (hard exit, no stats printed)"@
    }
}

/// What is printed at the start; `group` is the shared id in quotes.
pub open spec fn start_lines_quoted(opts: WatchOptions, logging: bool, group: Seq<char>) -> Seq<
    Seq<char>,
> {
    let a = seq![
        "tbg-lite watch (task 6/8/13/24): SetWinEventHook CREATE/SHOW/NAMECHANGE/DESTROY, out-of-context, skip-own-process"@,
        "strategy : "@ + winevent::strategy_label(opts.strategy),
    ];
    let b = if logging {
        a.push(
            "log      : ring log enabled (%LOCALAPPDATA%\\tbg-lite\\"@ + ringlog::LOG_FILE_NAME@
                + "), 256 KiB cap (task 20)"@,
        )
    } else {
        a
    };
    let c = b.push(
        "startup  : pre-existing app windows are rewritten at launch (task 13: enabling = ungroup everything)"@,
    );
    let d = if opts.strategy is Group {
        c.push(
            "group    : every candidate window (incl. pre-existing) gets the shared AUMID "@
                + group,
        ).push(
            "restore  : originals persisted to "@ + restoremap::MAP_FILE_NAME@
                + " (in %LOCALAPPDATA%\\tbg-lite) for `restore`"@,
        )
    } else {
        c
    };
    let e = d.push("note: DESTROY hook is bookkeeping only (tracked-window cleanup)"@).push(
        "reassert : markers lost to app/shell rewrites are re-applied (task 28: NAMECHANGE check + 5s periodic verify)"@,
    ).push(duration_line(opts));
    let f = if opts.dry_run {
        e.push("mode: dry-run (no AUMID writes)"@)
    } else {
        e
    };
    let g = if opts.verbose {
        f.push("mode: verbose skips"@)
    } else {
        f
    };
    g.push(Seq::empty())
}

/// What is printed at the start.
pub open spec fn start_lines(opts: WatchOptions, logging: bool, group_value: Seq<char>) -> Seq<
    Seq<char>,
> {
    start_lines_quoted(opts, logging, text::debug_text(group_value))
}

/// What the log file says at the start.
pub open spec fn start_text(opts: WatchOptions) -> Seq<char> {
    start_text_quoted(
        opts,
        match opts.group_name {
            Some(n) => Some(text::debug_text(n@)),
            None => None,
        },
    )
}

/// What the log file says at the start; `group` is the name of the group in quotes.
pub open spec fn start_text_quoted(opts: WatchOptions, group: Option<Seq<char>>) -> Seq<char> {
    "watch start: strategy="@ + (match opts.strategy {
        WatchStrategy::Ungroup => "ungroup"@,
        WatchStrategy::Group => "group"@,
    }) + " group="@ + group_shown(group) + " duration="@ + span_text(opts.duration_secs)
        + " dry_run="@ + truth(opts.dry_run)
}

/// What is said when the circuit breaker trips.
pub open spec fn tripped_text() -> Seq<char> {
    "watch: circuit breaker (task 20): "@ + num::decimal(health::TRIP_THRESHOLD as nat)
        + " consecutive abnormal exits detected - removing the autostart entry to break a potential boot loop"@
}

/// What is said of what came of it.
pub open spec fn outcome_text(outcome: Result<UninstallOutcome, String>) -> Seq<char> {
    match outcome {
        Ok(UninstallOutcome::Removed(was)) => "watch: circuit breaker: autostart removed (was: "@
            + was@ + ")"@,
        Ok(UninstallOutcome::NotInstalled) =>
            "watch: circuit breaker: no autostart entry present (nothing to remove)"@,
        Err(e) => "watch: circuit breaker: removing autostart failed: "@ + e@,
    }
}

/// What is said when the shell was restarted.
pub open spec fn restart_text(before: u32, now: u32) -> Seq<char> {
    "watch: shell restart detected (task 20): explorer pid "@ + num::decimal(before as nat)
        + " -> "@ + num::decimal(now as nat) + "; re-sweeping all windows"@
}

/// What the log file says when the shell was restarted.
pub open spec fn restart_entry(before: u32, now: u32) -> Seq<char> {
    "shell restart: explorer pid "@ + num::decimal(before as nat) + " -> "@ + num::decimal(
        now as nat,
    )
}

/// The number of an event, as it is printed.
pub open spec fn event_code(event: u32) -> Option<Seq<char>> {
    if event == winevent::EVENT_OBJECT_CREATE {
        Some("0x8000"@)
    } else if event == winevent::EVENT_OBJECT_DESTROY {
        Some("0x8001"@)
    } else if event == winevent::EVENT_OBJECT_SHOW {
        Some("0x8002"@)
    } else if event == winevent::EVENT_OBJECT_NAMECHANGE {
        Some("0x800c"@)
    } else {
        None
    }
}

// ---------------------------------------------------------------------------
// Laws
// ---------------------------------------------------------------------------

/// A window is reported as reverted exactly where its id can be read, carries no mark of
/// the line, and was written to in the course of what the watcher was told, without having
/// been destroyed since.
pub proof fn law_reverted_was_written_to(
    m: winevent::Watch,
    moves: Seq<winevent::Move>,
    w: Seen,
)
    requires
        m.rewritten == Set::<usize>::empty(),
    ensures
        fate_of(winevent::played(m, moves), w) == Fate::Reverted <==> {
            &&& w.facts.aumid matches Ok(a) && !carries_mark(
                winevent::played(m, moves).strategy,
                a@,
            )
            &&& exists|i: int|
                0 <= i < moves.len() && winevent::wrote_to(#[trigger] moves[i], w.key)
                    && forall|j: int|
                    i < j < moves.len() ==> !winevent::destroyed(#[trigger] moves[j], w.key)
        },
{
    winevent::law_rewritten_is_what_was_written_to(m, moves, w.key);
}

/// A window that is done with and was not written to, as one that was skipped, is neither
/// reported as reverted nor as missed.
pub proof fn law_skipped_is_not_reported(m: winevent::Watch, w: Seen)
    requires
        m.handled.contains(w.key),
        !m.rewritten.contains(w.key),
    ensures
        fate_of(m, w) != Fate::Reverted,
        fate_of(m, w) != Fate::Missed,
{
}

/// Every window that the scan at the end comes to has one of the fates that the
/// report counts, or is of no interest: the counts add up to the windows.
pub proof fn law_fates_add_up(m: winevent::Watch, ws: Seq<Seen>)
    ensures
        count(m, ws, Fate::Outside) + count(m, ws, Fate::Unreadable) + count(m, ws, Fate::Marked)
            + count(m, ws, Fate::Reverted) + count(m, ws, Fate::Skipped) + count(
            m,
            ws,
            Fate::Missed,
        ) + count(m, ws, Fate::Unmarked) == ws.len(),
    decreases ws.len(),
{
    if ws.len() > 0 {
        law_fates_add_up(m, ws.drop_last());
    }
}

/// As many windows are listed as are counted.
pub proof fn law_list_is_as_long_as_count(
    m: winevent::Watch,
    ws: Seq<Seen>,
    fate: Fate,
    label: Seq<char>,
)
    ensures
        listed(m, ws, fate, label).len() == count(m, ws, fate),
    decreases ws.len(),
{
    if ws.len() > 0 {
        law_list_is_as_long_as_count(m, ws.drop_last(), fate, label);
    }
}

/// What the scan at the end makes of a window follows from its id, from whether the watcher
/// has dealt with it, and from what kind of window it is.
pub proof fn law_fates(m: winevent::Watch, w: Seen, id: String, e: String)
    ensures
        ({
            let known = m.rewritten.contains(w.key) || m.handled.contains(w.key);
            let old_one = m.baseline.contains(w.key) && !known;
            let mark = match m.strategy {
                WatchStrategy::Ungroup => appid::has_marker(id@),
                WatchStrategy::Group => appid::is_group(id@),
            };
            let f = fate_of(m, w);
            &&& f == Fate::Outside <==> old_one
            &&& !old_one && w.facts.aumid == Err::<String, String>(e) ==> f == Fate::Unreadable
            &&& !old_one && w.facts.aumid == Ok::<String, String>(id) ==> {
                &&& f == Fate::Marked <==> mark
                &&& f == Fate::Reverted <==> !mark && m.rewritten.contains(w.key)
                &&& f == Fate::Skipped <==> !mark && !m.rewritten.contains(w.key)
                    && m.handled.contains(w.key)
                &&& f == Fate::Missed <==> !mark && !known && w.facts.app_window()
                    && !w.facts.shell_window() && !w.facts.cloaked()
                &&& f == Fate::Unmarked <==> !mark && !known && !(w.facts.app_window()
                    && !w.facts.shell_window() && !w.facts.cloaked())
            }
        }),
{
}

/// Windows are counted and listed one by one: of two lists together there are as many as of
/// the one and of the other, and a single window counts where it has the fate.
pub proof fn law_windows_are_counted_one_by_one(
    m: winevent::Watch,
    a: Seq<Seen>,
    b: Seq<Seen>,
    w: Seen,
    fate: Fate,
    label: Seq<char>,
)
    ensures
        count(m, a + b, fate) == count(m, a, fate) + count(m, b, fate),
        listed(m, a + b, fate, label) == listed(m, a, fate, label) + listed(m, b, fate, label),
        fate_of(m, w) == fate ==> count(m, seq![w], fate) == 1,
        fate_of(m, w) != fate ==> count(m, seq![w], fate) == 0 && listed(
            m,
            seq![w],
            fate,
            label,
        ) == Seq::<Seq<char>>::empty(),
        fate_of(m, w) == fate ==> listed(m, seq![w], fate, label) == seq![
            label + winevent::window_text(w.key, w.facts) + " aumid="@ + text::debug_text(
                w.facts.aumid->Ok_0@,
            ),
        ],
    decreases b.len(),
{
    let none = Seq::<Seen>::empty();
    assert(seq![w].drop_last() =~= none);
    assert(seq![w].last() == w);
    assert(count(m, none, fate) == 0);
    assert(listed(m, none, fate, label) =~= Seq::<Seq<char>>::empty());
    if b.len() == 0 {
        assert(a + b =~= a);
    } else {
        law_windows_are_counted_one_by_one(m, a, b.drop_last(), w, fate, label);
        assert((a + b).drop_last() =~= a + b.drop_last());
        assert((a + b).last() == b.last());
        assert(listed(m, a + b, fate, label) =~= listed(m, a, fate, label) + listed(
            m,
            b,
            fate,
            label,
        ));
    }
}

/// The report tells every count under its name, in a fixed order.
pub proof fn law_report_tells_every_count(m: winevent::Watch, ws: Seq<Seen>)
    ensures
        ({
            let s = m.stats;
            let r = report(m, ws);
            let d = |n: u64| num::decimal(n as nat);
            &&& r.len() >= 10
            &&& r[0] == Seq::<char>::empty()
            &&& r[1] == "==== watch stats (task 6/8/13, docs/plan.md v2 §3, strategy: "@
                + winevent::strategy_label(m.strategy) + ") ===="@
            &&& r[2] == "events (per event): CREATE="@ + d(s.events_create) + " SHOW="@ + d(
                s.events_show,
            ) + " NAMECHANGE="@ + d(s.events_namechange) + " DESTROY(tracked)="@ + d(
                s.events_destroy_tracked,
            )
            &&& r[3] == "startup sweep (task 13): pre-existing rewritten="@ + d(
                s.startup_sweep_rewritten,
            ) + " already-marked="@ + d(s.startup_sweep_marked)
            &&& r[4] == "shell restarts (task 20)             : "@ + d(s.shell_restarts)
                + " (resweep rewritten="@ + d(s.resweep_rewritten) + " already-marked="@ + d(
                s.resweep_marked,
            ) + ")"@
            &&& r[5] == "baseline top-level windows at start : "@ + d(m.baseline_count)
            &&& r[6] == "new-window candidates         : "@ + d(s.candidates)
            &&& r[7] == "skips (per event) : dupe="@ + d(s.skipped_dupe) + " not_app_window="@ + d(
                s.skipped_not_app_window,
            ) + " shell="@ + d(s.skipped_shell) + " cloaked="@ + d(s.skipped_cloaked)
                + " read_fail="@ + d(s.skipped_read_fail) + " already_marked="@ + d(
                s.skipped_already_marked,
            ) + " cross_line="@ + d(s.skipped_cross_line)
            &&& m.dry_run ==> r.len() == 10 && r[8] == "dry-run    : "@ + d(s.dry_run_hits)
                + " candidates logged, nothing written"@
            &&& r.last()
                == "note: taskbar button races/jumps must be observed manually on real Windows"@
        }),
{
}

/// Behind the counts, a run that wrote tells of its writes and of what the scan at the end
/// found: how many windows carry the mark, which lost it and which never had it, how many
/// cannot be read, and, on the group line, how many windows the restore map holds.
pub proof fn law_report_tells_of_the_scan(m: winevent::Watch, ws: Seq<Seen>)
    requires
        !m.dry_run,
    ensures
        ({
            let s = m.stats;
            let reverted = listed(m, ws, Fate::Reverted, "  reverted: "@);
            let missed = listed(m, ws, Fate::Missed, "  missed: "@);
            let lost = count(m, ws, Fate::Unreadable);
            let unreadable = if lost > 0 {
                seq!["(scan: "@ + num::decimal(lost) + " windows unreadable)"@]
            } else {
                Seq::empty()
            };
            let held: nat = match m.map {
                Some(es) => es.len(),
                None => 0,
            };
            let entries = if m.strategy is Group {
                seq![
                    "restore-map entries alive         : "@ + num::decimal(held) + " ("@
                        + "tbg-restore.tsv"@ + ", %LOCALAPPDATA%\\tbg-lite)"@,
                ]
            } else {
                Seq::empty()
            };
            report(m, ws).skip(8) == seq![
                "rewritten  : "@ + num::decimal(s.rewritten as nat)
                    + " (original AUMID truncated: "@ + num::decimal(s.truncated as nat) + ")"@,
                "write fails: "@ + num::decimal(s.write_fail as nat),
                "reasserted (marker lost & re-applied, task 28): "@ + num::decimal(
                    s.reasserted as nat,
                ),
                "alive with marker                 : "@ + num::decimal(count(m, ws, Fate::Marked)),
                "reverted (app rewrote its AUMID)  : "@ + num::decimal(
                    count(m, ws, Fate::Reverted),
                ),
            ] + reverted + seq![
                "missed (new app w/o marker)       : "@ + num::decimal(count(m, ws, Fate::Missed)),
            ] + missed + unreadable + entries + seq![
                "note: taskbar button races/jumps must be observed manually on real Windows"@,
            ]
        }),
{
    let s = m.stats;
    let reverted = listed(m, ws, Fate::Reverted, "  reverted: "@);
    let missed = listed(m, ws, Fate::Missed, "  missed: "@);
    let r = report(m, ws);
    let c = count_lines(m);
    assert(c.len() == 8);
    let lost = count(m, ws, Fate::Unreadable);
    let unreadable = if lost > 0 {
        seq!["(scan: "@ + num::decimal(lost) + " windows unreadable)"@]
    } else {
        Seq::empty()
    };
    let held: nat = match m.map {
        Some(es) => es.len(),
        None => 0,
    };
    let entries = if m.strategy is Group {
        seq![
            "restore-map entries alive         : "@ + num::decimal(held) + " ("@
                + "tbg-restore.tsv"@ + ", %LOCALAPPDATA%\\tbg-lite)"@,
        ]
    } else {
        Seq::empty()
    };
    let written = seq![
        "rewritten  : "@ + digits(s.rewritten) + " (original AUMID truncated: "@ + digits(
            s.truncated,
        ) + ")"@,
        "write fails: "@ + digits(s.write_fail),
        "reasserted (marker lost & re-applied, task 28): "@ + digits(s.reasserted),
        "alive with marker                 : "@ + num::decimal(count(m, ws, Fate::Marked)),
        "reverted (app rewrote its AUMID)  : "@ + num::decimal(count(m, ws, Fate::Reverted)),
    ];
    let middle = seq![
        "missed (new app w/o marker)       : "@ + num::decimal(count(m, ws, Fate::Missed)),
    ];
    assert(write_lines(m) =~= c + written.take(3));
    assert(scan_lines(m, ws) =~= c + written + reverted + middle + missed + unreadable);
    assert(r =~= c + (written + reverted + middle + missed + unreadable + entries + seq![
        closing_note(),
    ]));
    assert(r.skip(8) =~= written + reverted + middle + missed + unreadable + entries + seq![
        closing_note(),
    ]);
}

/// What is printed at the start, line by line; `group` is the shared id in quotes.
pub proof fn law_start_lines(opts: WatchOptions, logging: bool, group_value: Seq<char>)
    ensures
        ({
            let none = Seq::<Seq<char>>::empty();
            let group = text::debug_text(group_value);
            start_lines(opts, logging, group_value) == seq![
                "tbg-lite watch (task 6/8/13/24): SetWinEventHook CREATE/SHOW/NAMECHANGE/DESTROY, out-of-context, skip-own-process"@,
                "strategy : "@ + winevent::strategy_label(opts.strategy),
            ] + (if logging {
                seq![
                    "log      : ring log enabled (%LOCALAPPDATA%\\tbg-lite\\"@ + "tbg.log"@
                        + "), 256 KiB cap (task 20)"@,
                ]
            } else {
                none
            }) + seq![
                "startup  : pre-existing app windows are rewritten at launch (task 13: enabling = ungroup everything)"@,
            ] + (match opts.strategy {
                WatchStrategy::Group => seq![
                    "group    : every candidate window (incl. pre-existing) gets the shared AUMID "@
                        + group,
                    "restore  : originals persisted to "@ + "tbg-restore.tsv"@
                        + " (in %LOCALAPPDATA%\\tbg-lite) for `restore`"@,
                ],
                WatchStrategy::Ungroup => none,
            }) + seq![
                "note: DESTROY hook is bookkeeping only (tracked-window cleanup)"@,
                "reassert : markers lost to app/shell rewrites are re-applied (task 28: NAMECHANGE check + 5s periodic verify)"@,
                duration_line(opts),
            ] + (if opts.dry_run {
                seq!["mode: dry-run (no AUMID writes)"@]
            } else {
                none
            }) + (if opts.verbose {
                seq!["mode: verbose skips"@]
            } else {
                none
            }) + seq![Seq::<char>::empty()]
        }),
{
    let none = Seq::<Seq<char>>::empty();
    let group = text::debug_text(group_value);
    let a = seq![
        "tbg-lite watch (task 6/8/13/24): SetWinEventHook CREATE/SHOW/NAMECHANGE/DESTROY, out-of-context, skip-own-process"@,
        "strategy : "@ + winevent::strategy_label(opts.strategy),
    ];
    let b = if logging {
        seq![
            "log      : ring log enabled (%LOCALAPPDATA%\\tbg-lite\\"@ + "tbg.log"@
                + "), 256 KiB cap (task 20)"@,
        ]
    } else {
        none
    };
    let c = seq![
        "startup  : pre-existing app windows are rewritten at launch (task 13: enabling = ungroup everything)"@,
    ];
    let d = match opts.strategy {
        WatchStrategy::Group => seq![
            "group    : every candidate window (incl. pre-existing) gets the shared AUMID "@ + group,
            "restore  : originals persisted to "@ + "tbg-restore.tsv"@
                + " (in %LOCALAPPDATA%\\tbg-lite) for `restore`"@,
        ],
        WatchStrategy::Ungroup => none,
    };
    let e = seq![
        "note: DESTROY hook is bookkeeping only (tracked-window cleanup)"@,
        "reassert : markers lost to app/shell rewrites are re-applied (task 28: NAMECHANGE check + 5s periodic verify)"@,
        duration_line(opts),
    ];
    let f = if opts.dry_run {
        seq!["mode: dry-run (no AUMID writes)"@]
    } else {
        none
    };
    let g = if opts.verbose {
        seq!["mode: verbose skips"@]
    } else {
        none
    };
    assert(start_lines(opts, logging, group_value) =~= a + b + c + d + e + f + g + seq![
        Seq::<char>::empty(),
    ]);
}

/// How the time for which the watcher runs is told, and what the log file says at the start.
pub proof fn law_start_is_told(opts: WatchOptions, name: String)
    ensures
        opts.duration_secs > 0 ==> duration_line(opts) == "duration: "@ + (num::decimal(
            opts.duration_secs as nat,
        ) + "s"@) + " (Ctrl+C = hard exit without stats)"@,
        opts.duration_secs == 0 && opts.stoppable ==> duration_line(opts)
            == "duration: until stopped from the interactive menu (graceful stop: hooks removed + stats printed)"@,
        opts.duration_secs == 0 && !opts.stoppable ==> duration_line(opts)
            == "duration: until Ctrl+C (hard exit, no stats printed)"@,
        ({
            let line = match opts.strategy {
                WatchStrategy::Group => "group"@,
                WatchStrategy::Ungroup => "ungroup"@,
            };
            let span = if opts.duration_secs > 0 {
                num::decimal(opts.duration_secs as nat) + "s"@
            } else {
                "0ns"@
            };
            let dry = if opts.dry_run {
                "true"@
            } else {
                "false"@
            };
            let front = "watch start: strategy="@ + line + " group="@;
            let back = |group: Seq<char>| front + group + " duration="@ + span + " dry_run="@ + dry;
            &&& opts.group_name is None ==> start_text(opts) == back("None"@)
            &&& opts.group_name == Some(name) ==> start_text(opts) == back(
                "Some("@ + text::debug_text(name@) + ")"@,
            )
        }),
{
}

/// What is said when the circuit breaker trips, what came of it, and what is said of a
/// restart of the shell.
pub proof fn law_notices(was: String, e: String, before: u32, now: u32)
    ensures
        tripped_text() == "watch: circuit breaker (task 20): "@ + num::decimal(3)
            + " consecutive abnormal exits detected - removing the autostart entry to break a potential boot loop"@,
        outcome_text(Ok(UninstallOutcome::Removed(was)))
            == "watch: circuit breaker: autostart removed (was: "@ + was@ + ")"@,
        outcome_text(Ok(UninstallOutcome::NotInstalled))
            == "watch: circuit breaker: no autostart entry present (nothing to remove)"@,
        outcome_text(Err(e)) == "watch: circuit breaker: removing autostart failed: "@ + e@,
        restart_text(before, now) == "watch: shell restart detected (task 20): explorer pid "@
            + num::decimal(before as nat) + " -> "@ + num::decimal(now as nat)
            + "; re-sweeping all windows"@,
        restart_entry(before, now) == "shell restart: explorer pid "@ + num::decimal(before as nat)
            + " -> "@ + num::decimal(now as nat),
{
}

/// The events that the watcher hears of have their numbers.
pub proof fn law_event_codes(event: u32)
    ensures
        event_code(event) is Some <==> 0x8000 <= event <= 0x8002 || event == 0x800c,
        event_code(0x8000) == Some("0x8000"@),
        event_code(0x8001) == Some("0x8001"@),
        event_code(0x8002) == Some("0x8002"@),
        event_code(0x800c) == Some("0x800c"@),
{
}

// ---------------------------------------------------------------------------
// Functions
// ---------------------------------------------------------------------------

/// Adds a label and a number behind it.
fn with_number(s: &mut String, label: &str, n: u64)
    ensures
        final(s)@ == old(s)@ + label@ + num::decimal(n as nat),
{
    s.push_str(label);
    s.push_str(num::decimal_text(n).as_str());
}

/// A label and a number behind it.
fn numbered(label: &str, n: u64) -> (s: String)
    ensures
        s@ == label@ + num::decimal(n as nat),
{
    let mut s: String = label.to_owned();
    s.push_str(num::decimal_text(n).as_str());
    s
}

/// What the scan at the end makes of a window.
fn fate(state: &WatcherState, w: &Seen) -> (r: Fate)
    ensures
        r == fate_of(state@, *w),
{
    broadcast use vstd::std_specs::hash::group_hash_axioms;

    let rewritten: bool = state.rewritten.contains(&w.key);
    let handled: bool = state.handled.contains(&w.key);
    if !rewritten && !handled && state.baseline.contains(&w.key) {
        return Fate::Outside;
    }
    match &w.facts.aumid {
        Err(_) => Fate::Unreadable,
        Ok(a) => {
            let marked: bool = match state.strategy {
                WatchStrategy::Ungroup => text::contains_text(a.as_str(), appid::SUFFIX_MARKER),
                WatchStrategy::Group => appid::is_group_aumid(a.as_str()),
            };
            if marked {
                Fate::Marked
            } else if rewritten {
                Fate::Reverted
            } else if handled {
                Fate::Skipped
            } else if w.facts.is_app_window() && !w.facts.is_shell_window()
                && !w.facts.is_cloaked() {
                Fate::Missed
            } else {
                Fate::Unmarked
            }
        },
    }
}

/// How many of the windows have a fate.
fn tally(state: &WatcherState, ws: &Vec<Seen>, wanted: Fate) -> (n: u64)
    ensures
        n == count(state@, ws@, wanted),
{
    let mut n: u64 = 0;
    let mut i: usize = 0;
    while i < ws.len()
        invariant
            i <= ws@.len(),
            n <= i,
            n == count(state@, ws@.take(i as int), wanted),
        decreases ws@.len() - i,
    {
        proof {
            assert(ws@.take(i + 1).drop_last() =~= ws@.take(i as int));
            assert(ws@.take(i + 1).last() == ws@[i as int]);
        }
        if fate(state, &ws[i]) == wanted {
            n += 1;
        }
        i += 1;
    }
    assert(ws@.take(i as int) =~= ws@);
    n
}

/// The line about a window; `aumid` is its id in quotes.
pub fn listed_line(label: &str, window: &str, aumid: &str) -> (r: String)
    ensures
        r@ == listed_text(label@, window@, aumid@),
{
    let mut r: String = label.to_owned();
    r.push_str(window);
    r.push_str(" aumid=");
    r.push_str(aumid);
    r
}

/// Adds the lines about the windows that have a fate.
fn list(out: &mut Vec<String>, state: &WatcherState, ws: &Vec<Seen>, wanted: Fate, label: &str)
    requires
        wanted == Fate::Reverted || wanted == Fate::Missed,
    ensures
        text::texts(final(out)@) == text::texts(old(out)@) + listed(
            state@,
            ws@,
            wanted,
            label@,
        ),
{
    let ghost was = text::texts(out@);
    let mut i: usize = 0;
    assert(ws@.take(0) =~= Seq::<Seen>::empty());
    assert(text::texts(out@) =~= was + listed(state@, ws@.take(0), wanted, label@));
    while i < ws.len()
        invariant
            i <= ws@.len(),
            wanted == Fate::Reverted || wanted == Fate::Missed,
            text::texts(out@) == was + listed(state@, ws@.take(i as int), wanted, label@),
        decreases ws@.len() - i,
    {
        proof {
            assert(ws@.take(i + 1).drop_last() =~= ws@.take(i as int));
            assert(ws@.take(i + 1).last() == ws@[i as int]);
        }
        if fate(state, &ws[i]) == wanted {
            let w: &Seen = &ws[i];
            if let Ok(a) = &w.facts.aumid {
                let line: String = listed_line(
                    label,
                    winevent::fmt_window(w.key, &w.facts).as_str(),
                    text::debug_quoted(a.as_str()).as_str(),
                );
                text::say(out, line);
            }
            assert(text::texts(out@) =~= was + listed(state@, ws@.take(i + 1), wanted, label@));
        }
        i += 1;
    }
    assert(ws@.take(i as int) =~= ws@);
}

/// Adds the counts of events and skips.
fn add_counts(out: &mut Vec<String>, state: &WatcherState)
    requires
        old(out)@.len() == 0,
    ensures
        text::texts(final(out)@) == count_lines(state@),
{
    let s: winevent::Stats = state.stats;
    assert(text::texts(out@) =~= Seq::<Seq<char>>::empty());
    text::say(out, String::new());
    let mut line: String =
        "==== watch stats (task 6/8/13, docs/plan.md v2 §3, strategy: ".to_owned();
    line.push_str(state.strategy.label());
    line.push_str(") ====");
    text::say(out, line);
    let mut line: String = numbered("events (per event): CREATE=", s.events_create);
    with_number(&mut line, " SHOW=", s.events_show);
    with_number(&mut line, " NAMECHANGE=", s.events_namechange);
    with_number(&mut line, " DESTROY(tracked)=", s.events_destroy_tracked);
    text::say(out, line);
    let mut line: String = numbered(
        "startup sweep (task 13): pre-existing rewritten=",
        s.startup_sweep_rewritten,
    );
    with_number(&mut line, " already-marked=", s.startup_sweep_marked);
    text::say(out, line);
    let mut line: String = numbered(
        "shell restarts (task 20)             : ",
        s.shell_restarts,
    );
    with_number(&mut line, " (resweep rewritten=", s.resweep_rewritten);
    with_number(&mut line, " already-marked=", s.resweep_marked);
    line.push_str(")");
    text::say(out, line);
    text::say(out, numbered("baseline top-level windows at start : ", state.baseline_count));
    text::say(out, numbered("new-window candidates         : ", s.candidates));
    let mut line: String = numbered("skips (per event) : dupe=", s.skipped_dupe);
    with_number(&mut line, " not_app_window=", s.skipped_not_app_window);
    with_number(&mut line, " shell=", s.skipped_shell);
    with_number(&mut line, " cloaked=", s.skipped_cloaked);
    with_number(&mut line, " read_fail=", s.skipped_read_fail);
    with_number(&mut line, " already_marked=", s.skipped_already_marked);
    with_number(&mut line, " cross_line=", s.skipped_cross_line);
    text::say(out, line);
}

/// The report at the end, from the windows that are there then.
pub fn final_scan_and_report(state: &WatcherState, ws: &Vec<Seen>) -> (out: Vec<String>)
    ensures
        text::texts(out@) == report(state@, ws@),
{
    let mut out: Vec<String> = Vec::new();
    add_counts(&mut out, state);
    if state.dry_run {
        let mut line: String = numbered("dry-run    : ", state.stats.dry_run_hits);
        line.push_str(" candidates logged, nothing written");
        text::say(&mut out, line);
        text::say(
            &mut out,
            "note: taskbar button races/jumps must be observed manually on real Windows".to_owned(),
        );
        return out;
    }
    let mut line: String = numbered("rewritten  : ", state.stats.rewritten);
    with_number(&mut line, " (original AUMID truncated: ", state.stats.truncated);
    line.push_str(")");
    text::say(&mut out, line);
    text::say(&mut out, numbered("write fails: ", state.stats.write_fail));
    text::say(
        &mut out,
        numbered(
            "reasserted (marker lost & re-applied, task 28): ",
            state.stats.reasserted,
        ),
    );
    text::say(
        &mut out,
        numbered("alive with marker                 : ", tally(state, ws, Fate::Marked)),
    );
    text::say(
        &mut out,
        numbered("reverted (app rewrote its AUMID)  : ", tally(state, ws, Fate::Reverted)),
    );
    list(&mut out, state, ws, Fate::Reverted, "  reverted: ");
    text::say(
        &mut out,
        numbered("missed (new app w/o marker)       : ", tally(state, ws, Fate::Missed)),
    );
    list(&mut out, state, ws, Fate::Missed, "  missed: ");
    let unreadable: u64 = tally(state, ws, Fate::Unreadable);
    if unreadable > 0 {
        let mut line: String = numbered("(scan: ", unreadable);
        line.push_str(" windows unreadable)");
        text::say(&mut out, line);
    }
    match state.strategy {
        WatchStrategy::Group => {
            let entries: usize = match &state.map {
                Some(map) => map.len(),
                None => 0,
            };
            let mut line: String = numbered(
                "restore-map entries alive         : ",
                entries as u64,
            );
            line.push_str(" (");
            line.push_str(restoremap::MAP_FILE_NAME);
            line.push_str(", %LOCALAPPDATA%\\tbg-lite)");
            text::say(&mut out, line);
        },
        WatchStrategy::Ungroup => {},
    }
    text::say(
        &mut out,
        "note: taskbar button races/jumps must be observed manually on real Windows".to_owned(),
    );
    out
}

/// A number of seconds as a span of time.
fn span(secs: u64) -> (r: String)
    ensures
        r@ == span_text(secs),
{
    if secs == 0 {
        "0ns".to_owned()
    } else {
        let mut r: String = num::decimal_text(secs);
        r.push_str("s");
        r
    }
}

/// What is printed at the start.
pub fn banner(opts: &WatchOptions, logging: bool, group_value: &str) -> (out: Vec<String>)
    ensures
        text::texts(out@) == start_lines(*opts, logging, group_value@),
{
    banner_quoted(opts, logging, text::debug_quoted(group_value).as_str())
}

/// What is printed at the start; `group` is the shared id in quotes.
pub fn banner_quoted(opts: &WatchOptions, logging: bool, group: &str) -> (out: Vec<String>)
    ensures
        text::texts(out@) == start_lines_quoted(*opts, logging, group@),
{
    let mut out: Vec<String> = text::no_lines();
    text::say(
        &mut out,
        "tbg-lite watch (task 6/8/13/24): SetWinEventHook CREATE/SHOW/NAMECHANGE/DESTROY, out-of-context, skip-own-process".to_owned(),
    );
    let mut line: String = "strategy : ".to_owned();
    line.push_str(opts.strategy.label());
    text::say(&mut out, line);
    if logging {
        let mut line: String =
            "log      : ring log enabled (%LOCALAPPDATA%\\tbg-lite\\".to_owned();
        line.push_str(ringlog::LOG_FILE_NAME);
        line.push_str("), 256 KiB cap (task 20)");
        text::say(&mut out, line);
    }
    text::say(
        &mut out,
        "startup  : pre-existing app windows are rewritten at launch (task 13: enabling = ungroup everything)".to_owned(),
    );
    match opts.strategy {
        WatchStrategy::Group => {
            let mut line: String =
                "group    : every candidate window (incl. pre-existing) gets the shared AUMID ".to_owned();
            line.push_str(group);
            text::say(&mut out, line);
            let mut line: String = "restore  : originals persisted to ".to_owned();
            line.push_str(restoremap::MAP_FILE_NAME);
            line.push_str(" (in %LOCALAPPDATA%\\tbg-lite) for `restore`");
            text::say(&mut out, line);
        },
        WatchStrategy::Ungroup => {},
    }
    text::say(
        &mut out,
        "note: DESTROY hook is bookkeeping only (tracked-window cleanup)".to_owned(),
    );
    text::say(
        &mut out,
        "reassert : markers lost to app/shell rewrites are re-applied (task 28: NAMECHANGE check + 5s periodic verify)".to_owned(),
    );
    if opts.duration_secs > 0 {
        let mut line: String = "duration: ".to_owned();
        line.push_str(span(opts.duration_secs).as_str());
        line.push_str(" (Ctrl+C = hard exit without stats)");
        text::say(&mut out, line);
    } else if opts.stoppable {
        text::say(
            &mut out,
            "duration: until stopped from the interactive menu (graceful stop: hooks removed + stats printed)".to_owned(),
        );
    } else {
        text::say(&mut out, "duration: until Ctrl+C (hard exit, no stats printed)".to_owned());
    }
    if opts.dry_run {
        text::say(&mut out, "mode: dry-run (no AUMID writes)".to_owned());
    }
    if opts.verbose {
        text::say(&mut out, "mode: verbose skips".to_owned());
    }
    text::say(&mut out, String::new());
    out
}

/// What the log file says at the start.
pub fn start_message(opts: &WatchOptions) -> (r: String)
    ensures
        r@ == start_text(*opts),
{
    match &opts.group_name {
        Some(n) => start_message_quoted(opts, Some(text::debug_quoted(n.as_str()))),
        None => start_message_quoted(opts, None),
    }
}

/// What the log file says at the start; `group` is the name of the group in quotes.
pub fn start_message_quoted(opts: &WatchOptions, group: Option<String>) -> (r: String)
    ensures
        r@ == start_text_quoted(*opts, text::opt_text(group)),
{
    let mut r: String = "watch start: strategy=".to_owned();
    match opts.strategy {
        WatchStrategy::Ungroup => {
            r.push_str("ungroup");
        },
        WatchStrategy::Group => {
            r.push_str("group");
        },
    }
    r.push_str(" group=");
    let ghost was = r@;
    match &group {
        Some(n) => {
            r.push_str("Some(");
            r.push_str(n.as_str());
            r.push_str(")");
        },
        None => {
            r.push_str("None");
        },
    }
    assert(r@ =~= was + group_shown(text::opt_text(group)));
    r.push_str(" duration=");
    r.push_str(span(opts.duration_secs).as_str());
    r.push_str(" dry_run=");
    r.push_str(
        if opts.dry_run {
            "true"
        } else {
            "false"
        },
    );
    r
}

/// What is said when the circuit breaker trips.
pub fn breaker_tripped() -> (r: String)
    ensures
        r@ == tripped_text(),
{
    let mut r: String = numbered(
        "watch: circuit breaker (task 20): ",
        health::TRIP_THRESHOLD as u64,
    );
    r.push_str(
        " consecutive abnormal exits detected - removing the autostart entry to break a potential boot loop",
    );
    r
}

/// What is said of what came of it.
pub fn breaker_outcome(outcome: &Result<UninstallOutcome, String>) -> (r: String)
    ensures
        r@ == outcome_text(*outcome),
{
    match outcome {
        Ok(UninstallOutcome::Removed(was)) => {
            let mut r: String = "watch: circuit breaker: autostart removed (was: ".to_owned();
            r.push_str(was.as_str());
            r.push_str(")");
            r
        },
        Ok(UninstallOutcome::NotInstalled) =>
            "watch: circuit breaker: no autostart entry present (nothing to remove)".to_owned(),
        Err(e) => {
            let mut r: String = "watch: circuit breaker: removing autostart failed: ".to_owned();
            r.push_str(e.as_str());
            r
        },
    }
}

/// What is said when the shell was restarted: on standard output, and in the log
/// file.
pub fn shell_restart(before: u32, now: u32) -> (r: (String, String))
    ensures
        r.0@ == restart_text(before, now),
        r.1@ == restart_entry(before, now),
{
    let mut line: String = numbered(
        "watch: shell restart detected (task 20): explorer pid ",
        before as u64,
    );
    with_number(&mut line, " -> ", now as u64);
    line.push_str("; re-sweeping all windows");
    let mut entry: String = numbered("shell restart: explorer pid ", before as u64);
    with_number(&mut entry, " -> ", now as u64);
    (line, entry)
}

/// The error when the hook for one of the four events cannot be set.
pub fn hook_failed(event: u32) -> (r: Option<String>)
    ensures
        match event_code(event) {
            Some(code) => r matches Some(e) && e@ == "watch: SetWinEventHook failed for event "@
                + code,
            None => r is None,
        },
{
    let code: &str = if event == winevent::EVENT_OBJECT_CREATE {
        "0x8000"
    } else if event == winevent::EVENT_OBJECT_DESTROY {
        "0x8001"
    } else if event == winevent::EVENT_OBJECT_SHOW {
        "0x8002"
    } else if event == winevent::EVENT_OBJECT_NAMECHANGE {
        "0x800c"
    } else {
        return None;
    };
    let mut e: String = "watch: SetWinEventHook failed for event ".to_owned();
    e.push_str(code);
    Some(e)
}

} // verus!
