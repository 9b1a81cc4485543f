//! The watcher: what is done when a window is created, shown, renamed or
//! destroyed.
//!
//! The watcher gives windows a marker (see `appid`) along one of two lines. It is
//! told of events and of what is read of a window; it answers with what is to be
//! printed and what is to be done next, and is then told how that went. On the
//! group line the original id of a window is on disk before the window is touched.

use std::collections::HashSet;
use vstd::prelude::*;

use crate::appid;
use crate::num;
use crate::restoremap::Entries;
use crate::restoremap::RestoreMap;
use crate::restoremap::SavePlan;
use crate::text;
use crate::winutil;
use crate::winutil::WindowFacts;

verus! {

broadcast use vstd::std_specs::hash::group_hash_axioms;

/// The event that a window was created.
pub const EVENT_OBJECT_CREATE: u32 = 0x8000;

/// The event that a window was destroyed.
pub const EVENT_OBJECT_DESTROY: u32 = 0x8001;

/// The event that a window was shown.
pub const EVENT_OBJECT_SHOW: u32 = 0x8002;

/// The event that the title of a window changed.
pub const EVENT_OBJECT_NAMECHANGE: u32 = 0x800C;

/// The object id of a window itself.
pub const OBJID_WINDOW: i32 = 0;

/// The line along which windows are marked.
#[derive(Clone, Copy, PartialEq, Eq, Structural)]
pub enum WatchStrategy {
    /// Each window gets a suffix of its own: no grouping.
    Ungroup,
    /// All windows get one shared id: one group.
    Group,
}

/// How the watcher is to run.
pub struct WatchOptions {
    /// For how many seconds; zero means until it is stopped.
    pub duration_secs: u64,
    /// Whether nothing is written.
    pub dry_run: bool,
    /// Whether skipped windows are printed too.
    pub verbose: bool,
    /// The line.
    pub strategy: WatchStrategy,
    /// The name of the group.
    pub group_name: Option<String>,
    /// Whether the watcher can be asked to stop.
    pub stoppable: bool,
    /// Whether key events go to the log file.
    pub ring_log: bool,
}

/// What has been counted.
#[derive(Clone, Copy)]
pub struct Stats {
    pub events_create: u64,
    pub events_show: u64,
    pub events_namechange: u64,
    pub events_destroy_tracked: u64,
    pub candidates: u64,
    pub rewritten: u64,
    pub dry_run_hits: u64,
    pub truncated: u64,
    pub write_fail: u64,
    pub reasserted: u64,
    pub skipped_dupe: u64,
    pub skipped_not_app_window: u64,
    pub skipped_shell: u64,
    pub skipped_cloaked: u64,
    pub skipped_read_fail: u64,
    pub skipped_already_marked: u64,
    pub skipped_cross_line: u64,
    pub startup_sweep_rewritten: u64,
    pub startup_sweep_marked: u64,
    pub shell_restarts: u64,
    pub resweep_rewritten: u64,
    pub resweep_marked: u64,
}

/// The sweep over all windows that is under way.
#[derive(Clone, Copy, PartialEq, Eq, Structural)]
pub enum SweepKind {
    /// None: windows are looked at as events come.
    Idle,
    /// The sweep at the start.
    Startup,
    /// The sweep after the shell was restarted.
    Resweep,
}

/// Why a window is looked at.
#[derive(Clone, Copy, PartialEq, Eq, Structural)]
pub enum Trigger {
    Create,
    Show,
    Name,
    Sweep,
    Resweep,
}

/// What a look at a window shows.
#[derive(Clone, Copy, PartialEq, Eq, Structural)]
pub enum Verdict {
    /// It has no button in the taskbar, or not yet.
    NotApp,
    /// It belongs to the shell.
    Shell,
    /// It is hidden by the compositor.
    Cloaked,
    /// Its id cannot be read.
    ReadFail,
    /// It carries its own suffix.
    OwnSuffix,
    /// It carries something like a suffix that is not its own.
    SuffixLike,
    /// It carries a group id, on the suffix line.
    CrossGroup,
    /// It carries a group id, on the group line.
    OwnGroup,
    /// It carries a suffix, on the group line.
    CrossSuffix,
    /// It is to be marked.
    Candidate,
}

/// A write of an id to a window that is to be made.
pub struct Job {
    /// The handle of the window.
    pub key: usize,
    /// Why the window was looked at.
    pub trigger: Trigger,
    /// The window, for the log.
    pub window: String,
    /// The id that it has.
    pub aumid: String,
    /// The id that it is to have.
    pub value: String,
    /// Whether the window had been marked before and lost its marker.
    pub again: bool,
}

/// What is to be done next.
pub enum Action {
    /// Nothing.
    Nothing,
    /// Make the write, then call `written`.
    Write(Job),
    /// Save the restore map, then call `saved`.
    SaveThenWrite(Job),
    /// Save the restore map; whether it works does not matter.
    SaveMap,
}

/// What is to be printed.
pub enum Output {
    /// Nothing.
    Silent,
    /// A line for standard output.
    Line(String),
    /// A line for standard error.
    Error(String),
}

/// An answer of the watcher.
pub struct Reply {
    pub output: Output,
    pub action: Action,
}

/// What follows from an event.
#[derive(Clone, Copy, PartialEq, Eq, Structural)]
pub enum Next {
    /// Nothing.
    Ignore,
    /// Read the window, then call `consider`.
    Consider(Trigger),
    /// Read the window, then call `reassert`.
    Reassert,
    /// Save the restore map; whether it works does not matter.
    SaveMap,
}

/// The state of the watcher.
pub struct WatcherState {
    pub dry_run: bool,
    pub verbose: bool,
    pub strategy: WatchStrategy,
    /// The shared id; empty on the suffix line.
    pub group_value: String,
    /// The restore map; none on the suffix line.
    pub map: Option<RestoreMap>,
    /// The windows that the sweeps have seen and that still exist.
    pub baseline: HashSet<usize>,
    /// How many windows the sweep at the start has seen.
    pub baseline_count: u64,
    /// The windows that are done with.
    pub handled: HashSet<usize>,
    /// The windows that have been written to and that still exist.
    pub rewritten: HashSet<usize>,
    pub sweep_kind: SweepKind,
    pub stats: Stats,
}

// ---------------------------------------------------------------------------
// Models
// ---------------------------------------------------------------------------

/// The watcher, as a value.
#[verifier::ext_equal]
pub struct Watch {
    pub dry_run: bool,
    pub verbose: bool,
    pub strategy: WatchStrategy,
    pub group_value: Seq<char>,
    pub map: Option<Entries>,
    pub baseline: Set<usize>,
    pub baseline_count: u64,
    pub handled: Set<usize>,
    pub rewritten: Set<usize>,
    pub sweep: SweepKind,
    pub stats: Stats,
}

/// A write, as a value.
#[verifier::ext_equal]
pub struct JobView {
    pub key: usize,
    pub trigger: Trigger,
    pub window: Seq<char>,
    pub aumid: Seq<char>,
    pub value: Seq<char>,
    pub again: bool,
}

/// What is to be done next, as a value.
#[verifier::ext_equal]
pub enum ActionView {
    Nothing,
    Write(JobView),
    SaveThenWrite(JobView),
    SaveMap,
}

/// What is to be printed, as a value.
#[verifier::ext_equal]
pub enum OutputView {
    Silent,
    Line(Seq<char>),
    Error(Seq<char>),
}

/// An answer, as a value.
#[verifier::ext_equal]
pub struct ReplyView {
    pub output: OutputView,
    pub action: ActionView,
}

impl View for WatcherState {
    type V = Watch;

    open spec fn view(&self) -> Watch {
        Watch {
            dry_run: self.dry_run,
            verbose: self.verbose,
            strategy: self.strategy,
            group_value: self.group_value@,
            map: match self.map {
                Some(m) => Some(m@),
                None => None,
            },
            baseline: self.baseline@,
            baseline_count: self.baseline_count,
            handled: self.handled@,
            rewritten: self.rewritten@,
            sweep: self.sweep_kind,
            stats: self.stats,
        }
    }
}

impl View for Job {
    type V = JobView;

    open spec fn view(&self) -> JobView {
        JobView {
            key: self.key,
            trigger: self.trigger,
            window: self.window@,
            aumid: self.aumid@,
            value: self.value@,
            again: self.again,
        }
    }
}

impl View for Action {
    type V = ActionView;

    open spec fn view(&self) -> ActionView {
        match self {
            Action::Nothing => ActionView::Nothing,
            Action::Write(j) => ActionView::Write(j@),
            Action::SaveThenWrite(j) => ActionView::SaveThenWrite(j@),
            Action::SaveMap => ActionView::SaveMap,
        }
    }
}

impl View for Output {
    type V = OutputView;

    open spec fn view(&self) -> OutputView {
        match self {
            Output::Silent => OutputView::Silent,
            Output::Line(s) => OutputView::Line(s@),
            Output::Error(s) => OutputView::Error(s@),
        }
    }
}

impl View for Reply {
    type V = ReplyView;

    open spec fn view(&self) -> ReplyView {
        ReplyView { output: self.output@, action: self.action@ }
    }
}

/// The next value of a counter, which starts over behind its greatest value.
pub open spec fn next(n: u64) -> u64 {
    if n == u64::MAX {
        0
    } else {
        (n + 1) as u64
    }
}

/// The name of a trigger.
pub open spec fn trigger_name(t: Trigger) -> Seq<char> {
    match t {
        Trigger::Create => "CREATE"@,
        Trigger::Show => "SHOW"@,
        Trigger::Name => "NAME"@,
        Trigger::Sweep => "SWEEP"@,
        Trigger::Resweep => "RESWEEP"@,
    }
}

/// The name of a line.
pub open spec fn strategy_label(s: WatchStrategy) -> Seq<char> {
    match s {
        WatchStrategy::Ungroup => "ungroup (per-window suffix, line 1)"@,
        WatchStrategy::Group => "group (shared AUMID, line 2)"@,
    }
}

/// A window in one line: its handle, process and class, and its title in quotes.
pub open spec fn window_titled(key: usize, f: WindowFacts, title: Seq<char>) -> Seq<char> {
    "0x"@ + num::hex(key as nat) + " pid="@ + num::decimal(f.pid as nat) + " class="@
        + text::clipped(f.class@, 32) + " title="@ + title
}

/// A window in one line: its handle, process, class and title.
pub open spec fn window_text(key: usize, f: WindowFacts) -> Seq<char> {
    window_titled(key, f, text::debug_text(text::clipped(f.title@, 40)))
}

/// What is said of a candidate in a dry run; the ids are in quotes.
pub open spec fn dry_run_text(
    head: Seq<char>,
    before: Seq<char>,
    after: Seq<char>,
    strategy: WatchStrategy,
) -> Seq<char> {
    head + " [dry-run] aumid="@ + before + " -> "@ + after + (if strategy is Group {
        " (group)"@
    } else {
        Seq::empty()
    })
}

/// What is said of a write that worked; the ids are in quotes.
pub open spec fn change_text(
    head: Seq<char>,
    before: Seq<char>,
    after: Seq<char>,
    strategy: WatchStrategy,
    again: bool,
    ms: Seq<char>,
) -> Seq<char> {
    head + " aumid="@ + before + " -> "@ + after + (if again {
        " (marker lost, re-applied, write "@
    } else if strategy is Group {
        " (group, write "@
    } else {
        " (write "@
    }) + ms + "ms)"@
}

/// What is said of a first write that failed; the id is in quotes.
pub open spec fn failure_text(
    head: Seq<char>,
    aumid: Seq<char>,
    strategy: WatchStrategy,
    e: Seq<char>,
) -> Seq<char> {
    head + " aumid="@ + aumid + (if strategy is Group {
        " group write FAILED: "@
    } else {
        " write FAILED: "@
    }) + e
}

/// What the id of a window says about marking it.
pub open spec fn marked(strategy: WatchStrategy, key: usize, aumid: Seq<char>) -> Verdict {
    match strategy {
        WatchStrategy::Ungroup => if appid::stripped(aumid, key) is Some {
            Verdict::OwnSuffix
        } else if appid::has_marker(aumid) {
            Verdict::SuffixLike
        } else if appid::is_group(aumid) {
            Verdict::CrossGroup
        } else {
            Verdict::Candidate
        },
        WatchStrategy::Group => if appid::is_group(aumid) {
            Verdict::OwnGroup
        } else if appid::has_marker(aumid) {
            Verdict::CrossSuffix
        } else {
            Verdict::Candidate
        },
    }
}

/// What a look at a window shows.
pub open spec fn judged(strategy: WatchStrategy, key: usize, f: WindowFacts) -> Verdict {
    if !f.app_window() {
        Verdict::NotApp
    } else if f.shell_window() {
        Verdict::Shell
    } else if f.cloaked() {
        Verdict::Cloaked
    } else {
        match f.aumid {
            Err(_) => Verdict::ReadFail,
            Ok(a) => marked(strategy, key, a@),
        }
    }
}

/// The verdicts after which a window is done with. A window that is not yet an
/// application window, is cloaked or cannot be read is looked at again.
pub open spec fn settles(v: Verdict) -> bool {
    match v {
        Verdict::NotApp | Verdict::Cloaked | Verdict::ReadFail | Verdict::Candidate => false,
        _ => true,
    }
}

/// Why a window is skipped.
pub open spec fn skip_reason(v: Verdict, f: WindowFacts) -> Seq<char> {
    match v {
        Verdict::Shell => "shell window"@,
        Verdict::Cloaked => "cloaked"@,
        Verdict::ReadFail => "AUMID read failed: "@ + f.aumid->Err_0@,
        Verdict::OwnSuffix => "already marked (line 1 suffix)"@,
        Verdict::SuffixLike =>
            "already marked (suffix-like value not written by this tool for this window; skipped to avoid stacking)"@,
        Verdict::CrossGroup => "cross-line marker (line 2 group AUMID)"@,
        Verdict::OwnGroup => "already marked (line 2 group AUMID)"@,
        Verdict::CrossSuffix => "cross-line marker (line 1 suffix)"@,
        Verdict::NotApp | Verdict::Candidate => Seq::empty(),
    }
}

/// What a verdict adds to the counts.
pub open spec fn tallied(s: Stats, v: Verdict, sweep: SweepKind) -> Stats {
    match v {
        Verdict::NotApp => Stats { skipped_not_app_window: next(s.skipped_not_app_window), ..s },
        Verdict::Shell => Stats { skipped_shell: next(s.skipped_shell), ..s },
        Verdict::Cloaked => Stats { skipped_cloaked: next(s.skipped_cloaked), ..s },
        Verdict::ReadFail => Stats { skipped_read_fail: next(s.skipped_read_fail), ..s },
        Verdict::CrossGroup | Verdict::CrossSuffix => Stats {
            skipped_cross_line: next(s.skipped_cross_line),
            ..s
        },
        Verdict::OwnSuffix | Verdict::SuffixLike | Verdict::OwnGroup => match sweep {
            SweepKind::Startup => Stats {
                startup_sweep_marked: next(s.startup_sweep_marked),
                ..s
            },
            SweepKind::Resweep => Stats { resweep_marked: next(s.resweep_marked), ..s },
            SweepKind::Idle => Stats {
                skipped_already_marked: next(s.skipped_already_marked),
                ..s
            },
        },
        Verdict::Candidate => Stats { candidates: next(s.candidates), ..s },
    }
}

/// The start of a line of the log.
pub open spec fn line_head(at: Seq<char>, name: Seq<char>, window: Seq<char>) -> Seq<char> {
    at + " "@ + name + " "@ + window
}

/// An answer that says nothing and asks for nothing.
pub open spec fn quiet() -> ReplyView {
    ReplyView { output: OutputView::Silent, action: ActionView::Nothing }
}

/// An answer that is a line.
pub open spec fn says(line: Seq<char>) -> ReplyView {
    ReplyView { output: OutputView::Line(line), action: ActionView::Nothing }
}

/// An answer that is a line about something that failed.
pub open spec fn complains(line: Seq<char>) -> ReplyView {
    ReplyView { output: OutputView::Error(line), action: ActionView::Nothing }
}

/// An answer that asks for something.
pub open spec fn asks(action: ActionView) -> ReplyView {
    ReplyView { output: OutputView::Silent, action }
}

/// What the watcher would write to a window: on the suffix line the id of the
/// window with its suffix, on the group line the shared id.
pub open spec fn target(m: Watch, key: usize, aumid: Seq<char>) -> Seq<char> {
    match m.strategy {
        WatchStrategy::Ungroup => appid::suffixed(aumid, key),
        WatchStrategy::Group => m.group_value,
    }
}

/// The watcher when a write that cuts an id is at hand: a suffix that leaves no
/// room for the whole id is counted.
pub open spec fn cut_counted(m: Watch, key: usize, aumid: Seq<char>) -> Watch {
    if m.strategy is Ungroup && !appid::fits(aumid, key) {
        Watch { stats: Stats { truncated: next(m.stats.truncated), ..m.stats }, ..m }
    } else {
        m
    }
}

/// The watcher after a failed write.
pub open spec fn failed(m: Watch) -> Watch {
    Watch { stats: Stats { write_fail: next(m.stats.write_fail), ..m.stats }, ..m }
}

/// The watcher with the entry of a window in the restore map.
pub open spec fn recorded(m: Watch, key: usize, aumid: Seq<char>) -> Watch {
    Watch {
        map: match m.map {
            Some(es) => Some(es.insert(key, (m.group_value, aumid))),
            None => None,
        },
        ..m
    }
}

/// The watcher without the entry of a window in the restore map.
pub open spec fn forgotten(m: Watch, key: usize) -> Watch {
    Watch {
        map: match m.map {
            Some(es) => Some(es.remove(key)),
            None => None,
        },
        ..m
    }
}

/// What is done about a candidate. In a dry run it is only printed. On the suffix
/// line it is written to; on the group line the restore map comes first.
pub open spec fn tried(m0: Watch, j: JobView, at: Seq<char>) -> (Watch, ReplyView) {
    let m = cut_counted(m0, j.key, j.aumid);
    let head = line_head(at, trigger_name(j.trigger), j.window);
    if m.dry_run {
        (
            Watch {
                stats: Stats { dry_run_hits: next(m.stats.dry_run_hits), ..m.stats },
                handled: m.handled.insert(j.key),
                ..m
            },
            says(
                dry_run_text(
                    head,
                    text::debug_text(winutil::shown(j.aumid)),
                    text::debug_text(j.value),
                    m.strategy,
                ),
            ),
        )
    } else if m.strategy is Ungroup {
        (m, asks(ActionView::Write(j)))
    } else if m.map is None {
        (failed(m), says(head + " group write FAILED: no restore map loaded"@))
    } else {
        (recorded(m, j.key, j.aumid), asks(ActionView::SaveThenWrite(j)))
    }
}

/// What a look at a window leads to.
pub open spec fn considered(
    m: Watch,
    trigger: Trigger,
    key: usize,
    f: WindowFacts,
    at: Seq<char>,
) -> (Watch, ReplyView) {
    let v = judged(m.strategy, key, f);
    let n = Watch {
        stats: tallied(m.stats, v, m.sweep),
        handled: if settles(v) {
            m.handled.insert(key)
        } else {
            m.handled
        },
        ..m
    };
    let window = window_text(key, f);
    if v is Candidate {
        let aumid = f.aumid->Ok_0@;
        tried(
            n,
            JobView {
                key,
                trigger,
                window,
                aumid,
                value: target(m, key, aumid),
                again: false,
            },
            at,
        )
    } else if m.verbose && !(v is NotApp) {
        (n, says(line_head(at, trigger_name(trigger), window) + " skip: "@ + skip_reason(v, f)))
    } else {
        (n, quiet())
    }
}

/// What a second look at a window that is done with leads to: where its marker is
/// gone it is written again. What carries a marker of any kind is left alone. On
/// the group line an entry that is there is kept, for it holds the original.
pub open spec fn rechecked(m: Watch, key: usize, f: WindowFacts, at: Seq<char>) -> (
    Watch,
    ReplyView,
) {
    if m.dry_run || f.shell_window() || f.aumid is Err {
        (m, quiet())
    } else {
        let aumid = f.aumid->Ok_0@;
        let window = window_text(key, f);
        let j = JobView {
            key,
            trigger: Trigger::Name,
            window,
            aumid,
            value: target(m, key, aumid),
            again: true,
        };
        if !(marked(m.strategy, key, aumid) is Candidate) {
            (m, quiet())
        } else if m.strategy is Ungroup {
            (cut_counted(m, key, aumid), asks(ActionView::Write(j)))
        } else {
            match m.map {
                None => (
                    failed(m),
                    complains(
                        line_head(at, "REASSERT"@, window)
                            + " group reassert FAILED: no restore map loaded"@,
                    ),
                ),
                Some(es) => if crate::restoremap::original_of(es, key, m.group_value) is Some {
                    (m, asks(ActionView::Write(j)))
                } else {
                    (recorded(m, key, aumid), asks(ActionView::SaveThenWrite(j)))
                },
            }
        }
    }
}

/// What follows the save of the restore map: the write, or, where the save failed,
/// the entry is dropped and the window left alone.
pub open spec fn after_save(m: Watch, j: JobView, error: Option<Seq<char>>, at: Seq<char>) -> (
    Watch,
    ReplyView,
) {
    match error {
        None => (m, asks(ActionView::Write(j))),
        Some(e) => {
            let n = failed(forgotten(m, j.key));
            if j.again {
                (
                    n,
                    complains(
                        line_head(at, "REASSERT"@, j.window) + " map save FAILED: "@ + e
                            + " (AUMID left untouched)"@,
                    ),
                )
            } else {
                (
                    n,
                    says(
                        line_head(at, trigger_name(j.trigger), j.window) + " group write FAILED: "@
                            + e + " (AUMID left untouched)"@,
                    ),
                )
            }
        },
    }
}

/// The counts after a window was marked for the first time.
pub open spec fn rewrite_counted(s: Stats, sweep: SweepKind) -> Stats {
    let t = Stats { rewritten: next(s.rewritten), ..s };
    match sweep {
        SweepKind::Startup => Stats {
            startup_sweep_rewritten: next(t.startup_sweep_rewritten),
            ..t
        },
        SweepKind::Resweep => Stats { resweep_rewritten: next(t.resweep_rewritten), ..t },
        SweepKind::Idle => t,
    }
}

/// What follows a write. A window that was written to is done with. One that was
/// not can be tried again; on the group line its entry is dropped, unless the
/// window had been marked before.
pub open spec fn after_write(
    m: Watch,
    j: JobView,
    result: Result<Seq<char>, Seq<char>>,
    at: Seq<char>,
) -> (Watch, ReplyView) {
    let head = line_head(
        at,
        if j.again {
            "REASSERT"@
        } else {
            trigger_name(j.trigger)
        },
        j.window,
    );
    match result {
        Ok(ms) => {
            let line = change_text(
                head,
                text::debug_text(winutil::shown(j.aumid)),
                text::debug_text(j.value),
                m.strategy,
                j.again,
                ms,
            );
            let n = Watch { rewritten: m.rewritten.insert(j.key), ..m };
            if j.again {
                (
                    Watch { stats: Stats { reasserted: next(m.stats.reasserted), ..m.stats }, ..n },
                    says(line),
                )
            } else {
                (
                    Watch {
                        stats: rewrite_counted(m.stats, m.sweep),
                        handled: m.handled.insert(j.key),
                        ..n
                    },
                    says(line),
                )
            }
        },
        Err(e) => if j.again {
            (failed(m), complains(head + " write FAILED: "@ + e))
        } else if m.strategy is Ungroup {
            (
                failed(m),
                says(failure_text(head, text::debug_text(j.aumid), m.strategy, e)),
            )
        } else {
            (
                failed(forgotten(m, j.key)),
                ReplyView {
                    output: OutputView::Line(
                        failure_text(head, text::debug_text(j.aumid), m.strategy, e),
                    ),
                    action: if m.map is Some {
                        ActionView::SaveMap
                    } else {
                        ActionView::Nothing
                    },
                },
            )
        },
    }
}

/// What an event leads to. Events of anything but a window itself are ignored. A
/// destroyed window is forgotten, with its entry in the restore map, as its handle
/// may be given to another window. A window that is done with is not looked at
/// again, except that its marker is checked when its title changes.
pub open spec fn happened(m: Watch, event: u32, hwnd: usize, idobject: i32, idchild: i32) -> (
    Watch,
    Next,
) {
    if idobject != OBJID_WINDOW || idchild != 0 || hwnd == 0 {
        (m, Next::Ignore)
    } else if event == EVENT_OBJECT_DESTROY {
        let done = m.handled.contains(hwnd);
        let n = Watch {
            handled: m.handled.remove(hwnd),
            rewritten: m.rewritten.remove(hwnd),
            baseline: m.baseline.remove(hwnd),
            stats: if done || m.baseline.contains(hwnd) {
                Stats { events_destroy_tracked: next(m.stats.events_destroy_tracked), ..m.stats }
            } else {
                m.stats
            },
            ..m
        };
        if done && m.strategy is Group && (m.map matches Some(es) && es.contains_key(hwnd)) {
            (forgotten(n, hwnd), Next::SaveMap)
        } else {
            (n, Next::Ignore)
        }
    } else if event == EVENT_OBJECT_CREATE || event == EVENT_OBJECT_SHOW || event
        == EVENT_OBJECT_NAMECHANGE {
        let s = if event == EVENT_OBJECT_CREATE {
            Stats { events_create: next(m.stats.events_create), ..m.stats }
        } else if event == EVENT_OBJECT_SHOW {
            Stats { events_show: next(m.stats.events_show), ..m.stats }
        } else {
            Stats { events_namechange: next(m.stats.events_namechange), ..m.stats }
        };
        if !m.handled.contains(hwnd) {
            (
                Watch { stats: s, ..m },
                Next::Consider(
                    if event == EVENT_OBJECT_CREATE {
                        Trigger::Create
                    } else if event == EVENT_OBJECT_SHOW {
                        Trigger::Show
                    } else {
                        Trigger::Name
                    },
                ),
            )
        } else if event == EVENT_OBJECT_NAMECHANGE {
            (Watch { stats: s, ..m }, Next::Reassert)
        } else {
            (
                Watch { stats: Stats { skipped_dupe: next(s.skipped_dupe), ..s }, ..m },
                Next::Ignore,
            )
        }
    } else {
        (m, Next::Ignore)
    }
}

/// The watcher when the sweep at the start begins.
pub open spec fn startup_begun(m: Watch) -> Watch {
    Watch { sweep: SweepKind::Startup, ..m }
}

/// The watcher when the sweep after a restart of the shell begins.
pub open spec fn resweep_begun(m: Watch) -> Watch {
    Watch {
        sweep: SweepKind::Resweep,
        stats: Stats { shell_restarts: next(m.stats.shell_restarts), ..m.stats },
        ..m
    }
}

/// The watcher when a sweep has come to a window.
pub open spec fn swept(m: Watch, key: usize) -> Watch {
    Watch { baseline: m.baseline.insert(key), ..m }
}

/// The watcher when the sweep at the start is done.
pub open spec fn startup_ended(m: Watch) -> Watch {
    Watch { sweep: SweepKind::Idle, baseline_count: m.baseline.len() as u64, ..m }
}

/// The watcher when the sweep after a restart of the shell is done.
pub open spec fn resweep_ended(m: Watch) -> Watch {
    Watch { sweep: SweepKind::Idle, ..m }
}

/// Something that the watcher is told.
pub enum Move {
    Look { trigger: Trigger, key: usize, facts: WindowFacts, at: Seq<char> },
    Check { key: usize, facts: WindowFacts, at: Seq<char> },
    Saved { job: JobView, error: Option<Seq<char>>, at: Seq<char> },
    Written { job: JobView, result: Result<Seq<char>, Seq<char>>, at: Seq<char> },
    Event { event: u32, hwnd: usize, idobject: i32, idchild: i32 },
    StartupBegins,
    ResweepBegins,
    SweepsTo(usize),
    StartupEnds,
    ResweepEnds,
}

/// The watcher after it was told something.
pub open spec fn moved(m: Watch, what: Move) -> Watch {
    match what {
        Move::Look { trigger, key, facts, at } => considered(m, trigger, key, facts, at).0,
        Move::Check { key, facts, at } => rechecked(m, key, facts, at).0,
        Move::Saved { job, error, at } => after_save(m, job, error, at).0,
        Move::Written { job, result, at } => after_write(m, job, result, at).0,
        Move::Event { event, hwnd, idobject, idchild } => happened(
            m,
            event,
            hwnd,
            idobject,
            idchild,
        ).0,
        Move::StartupBegins => startup_begun(m),
        Move::ResweepBegins => resweep_begun(m),
        Move::SweepsTo(key) => swept(m, key),
        Move::StartupEnds => startup_ended(m),
        Move::ResweepEnds => resweep_ended(m),
    }
}

/// The watcher after it was told one thing after the other.
pub open spec fn played(m: Watch, moves: Seq<Move>) -> Watch
    decreases moves.len(),
{
    if moves.len() == 0 {
        m
    } else {
        moved(played(m, moves.drop_last()), moves.last())
    }
}

/// Whether the watcher was told that it has written to a window.
pub open spec fn wrote_to(what: Move, key: usize) -> bool {
    what matches Move::Written { job, result, .. } && job.key == key && result is Ok
}

/// Whether the watcher was told that a window was destroyed.
pub open spec fn destroyed(what: Move, key: usize) -> bool {
    what matches Move::Event { event, hwnd, idobject, idchild } && event == EVENT_OBJECT_DESTROY
        && hwnd == key && key != 0 && idobject == OBJID_WINDOW && idchild == 0
}

// ---------------------------------------------------------------------------
// Laws
// ---------------------------------------------------------------------------

/// The windows that count as written to are those that the watcher has written to since
/// it began, and that were not destroyed since then.
pub proof fn law_rewritten_is_what_was_written_to(m: Watch, moves: Seq<Move>, key: usize)
    requires
        m.rewritten == Set::<usize>::empty(),
    ensures
        played(m, moves).rewritten.contains(key) <==> exists|i: int|
            0 <= i < moves.len() && wrote_to(#[trigger] moves[i], key) && forall|j: int|
                i < j < moves.len() ==> !destroyed(#[trigger] moves[j], key),
    decreases moves.len(),
{
    if moves.len() > 0 {
        let before = moves.drop_last();
        let last = moves.last();
        let n = moves.len() - 1;
        law_rewritten_is_what_was_written_to(m, before, key);
        assert(played(m, moves).rewritten.contains(key) <==> (wrote_to(last, key) || (played(
            m,
            before,
        ).rewritten.contains(key) && !destroyed(last, key))));
        assert forall|i: int| 0 <= i < n implies before[i] == moves[i] by {}
        if wrote_to(last, key) {
            assert(wrote_to(moves[n], key));
        } else if played(m, before).rewritten.contains(key) && !destroyed(last, key) {
            let i = choose|i: int|
                0 <= i < before.len() && wrote_to(#[trigger] before[i], key) && forall|j: int|
                    i < j < before.len() ==> !destroyed(#[trigger] before[j], key);
            assert forall|j: int| i < j < moves.len() implies !destroyed(
                #[trigger] moves[j],
                key,
            ) by {
                if j < n {
                    assert(before[j] == moves[j]);
                }
            }
            assert(wrote_to(moves[i], key));
        }
        if exists|i: int|
            0 <= i < moves.len() && wrote_to(#[trigger] moves[i], key) && forall|j: int|
                i < j < moves.len() ==> !destroyed(#[trigger] moves[j], key) {
            let i = choose|i: int|
                0 <= i < moves.len() && wrote_to(#[trigger] moves[i], key) && forall|j: int|
                    i < j < moves.len() ==> !destroyed(#[trigger] moves[j], key);
            if i < n {
                assert(!destroyed(moves[n], key));
                assert(wrote_to(before[i], key));
                assert forall|j: int| i < j < before.len() implies !destroyed(
                    #[trigger] before[j],
                    key,
                ) by {
                    assert(before[j] == moves[j]);
                }
            }
        }
    }
}

/// The write that an action asks for, sooner or later.
pub open spec fn job_of(a: ActionView) -> Option<JobView> {
    match a {
        ActionView::Write(j) => Some(j),
        ActionView::SaveThenWrite(j) => Some(j),
        ActionView::Nothing | ActionView::SaveMap => None,
    }
}

/// Markers do not stack: the watcher only ever writes over an id that carries no
/// marker of either line, and what it writes is the mark of its own line.
pub proof fn law_markers_do_not_stack(
    m: Watch,
    trigger: Trigger,
    key: usize,
    f: WindowFacts,
    at: Seq<char>,
)
    ensures
        job_of(considered(m, trigger, key, f, at).1.action) matches Some(j) ==> {
            &&& f.aumid matches Ok(a) && a@ == j.aumid
            &&& !appid::has_marker(j.aumid)
            &&& !appid::is_group(j.aumid)
            &&& j.key == key
            &&& j.value == target(m, key, j.aumid)
        },
        job_of(rechecked(m, key, f, at).1.action) matches Some(j) ==> {
            &&& f.aumid matches Ok(a) && a@ == j.aumid
            &&& !appid::has_marker(j.aumid)
            &&& !appid::is_group(j.aumid)
            &&& j.key == key
            &&& j.value == target(m, key, j.aumid)
        },
{
}

/// A second round changes nothing: the id that the watcher writes to a window is
/// recognised as its own mark, so that the window is neither written to by another
/// look nor by a check of its marker.
pub proof fn law_second_round_writes_nothing(
    m: Watch,
    trigger: Trigger,
    key: usize,
    f: WindowFacts,
    aumid: Seq<char>,
    at: Seq<char>,
)
    requires
        m.strategy is Group ==> appid::is_group(m.group_value),
        f.aumid matches Ok(a) && a@ == target(m, key, aumid),
    ensures
        marked(m.strategy, key, target(m, key, aumid)) == (match m.strategy {
            WatchStrategy::Ungroup => Verdict::OwnSuffix,
            WatchStrategy::Group => Verdict::OwnGroup,
        }),
        considered(m, trigger, key, f, at).1.action is Nothing,
        rechecked(m, key, f, at) == (m, quiet()),
{
    appid::law_strip_undoes_suffix(aumid, key);
}

/// On the group line no id is written before its original is in the saved map: a
/// first write always waits for the save, by then the map holds the original, and
/// only a save that worked leads to the write.
pub proof fn law_original_is_saved_first(
    m: Watch,
    trigger: Trigger,
    key: usize,
    f: WindowFacts,
    at: Seq<char>,
)
    requires
        m.strategy is Group,
    ensures
        !(considered(m, trigger, key, f, at).1.action is Write),
        rechecked(m, key, f, at).1.action is Write ==> (m.map matches Some(es)
            && crate::restoremap::original_of(es, key, m.group_value) is Some),
        considered(m, trigger, key, f, at).1.action matches ActionView::SaveThenWrite(j) ==> ({
            let n = considered(m, trigger, key, f, at).0;
            n.map matches Some(es) && crate::restoremap::original_of(es, key, m.group_value)
                == Some(j.aumid)
        }),
        rechecked(m, key, f, at).1.action matches ActionView::SaveThenWrite(j) ==> ({
            let n = rechecked(m, key, f, at).0;
            n.map matches Some(es) && crate::restoremap::original_of(es, key, m.group_value)
                == Some(j.aumid)
        }),
        forall|n: Watch, j: JobView, error: Option<Seq<char>>| #[trigger]
            after_save(n, j, error, at).1.action is Write <==> error is None,
        forall|n: Watch, j: JobView, error: Option<Seq<char>>|
            error is None ==> #[trigger] after_save(n, j, error, at).0 == n,
{
}

/// A first write on the group line that does not come about leaves no trace in the
/// restore map, whether the save failed or the write: of a window without an entry
/// there is none afterwards, the other entries are as before, and the window can
/// be tried again.
pub proof fn law_failed_write_leaves_no_entry(
    m: Watch,
    trigger: Trigger,
    key: usize,
    f: WindowFacts,
    at: Seq<char>,
    error: Seq<char>,
)
    requires
        m.strategy is Group,
        m.map matches Some(es) && !es.contains_key(key),
    ensures
        considered(m, trigger, key, f, at).1.action matches ActionView::SaveThenWrite(j) ==> ({
            let n = considered(m, trigger, key, f, at).0;
            let a = after_save(n, j, Some(error), at).0;
            let b = after_write(n, j, Err(error), at).0;
            a.map == m.map && b.map == m.map && a.handled == m.handled && b.handled == m.handled
        }),
{
    let es = m.map->0;
    if considered(m, trigger, key, f, at).1.action is SaveThenWrite {
        let aumid = f.aumid->Ok_0@;
        assert(es.insert(key, (m.group_value, aumid)).remove(key) =~= es);
    }
}

/// A dry run writes nothing: it asks for no write and no save, and keeps the
/// restore map as it is.
pub proof fn law_dry_run_writes_nothing(
    m: Watch,
    trigger: Trigger,
    key: usize,
    f: WindowFacts,
    at: Seq<char>,
)
    requires
        m.dry_run,
    ensures
        considered(m, trigger, key, f, at).1.action is Nothing,
        considered(m, trigger, key, f, at).0.map == m.map,
        rechecked(m, key, f, at) == (m, quiet()),
{
}

/// A destroyed window is forgotten, so that another window with its handle starts
/// anew: the next event of that handle leads to a look.
pub proof fn law_destroyed_is_forgotten(m: Watch, hwnd: usize, event: u32)
    requires
        hwnd != 0,
        event == EVENT_OBJECT_CREATE || event == EVENT_OBJECT_SHOW || event
            == EVENT_OBJECT_NAMECHANGE,
    ensures
        ({
            let n = happened(m, EVENT_OBJECT_DESTROY, hwnd, OBJID_WINDOW, 0).0;
            &&& !n.handled.contains(hwnd)
            &&& !n.rewritten.contains(hwnd)
            &&& !n.baseline.contains(hwnd)
            &&& m.strategy is Group && m.handled.contains(hwnd) ==> (n.map matches Some(es)
                ==> !es.contains_key(hwnd))
            &&& happened(n, event, hwnd, OBJID_WINDOW, 0).1 is Consider
        }),
{
}

/// A window that is done with is not looked at anew by any event: its marker is
/// checked when its title changes, and other events only count.
pub proof fn law_handled_is_only_checked(
    m: Watch,
    event: u32,
    hwnd: usize,
    idobject: i32,
    idchild: i32,
)
    requires
        m.handled.contains(hwnd),
    ensures
        !(happened(m, event, hwnd, idobject, idchild).1 is Consider),
        event != EVENT_OBJECT_NAMECHANGE ==> !(happened(m, event, hwnd, idobject, idchild).1
            is Reassert),
{
}

/// The watcher after a look at a window, where the save and the write that it leads to
/// work; `ms` is how long the write took.
pub open spec fn carried_out(
    m: Watch,
    trigger: Trigger,
    key: usize,
    f: WindowFacts,
    at: Seq<char>,
    ms: Seq<char>,
) -> Watch {
    let (n, r) = considered(m, trigger, key, f, at);
    match r.action {
        ActionView::Write(j) => after_write(n, j, Ok(ms), at).0,
        ActionView::SaveThenWrite(j) => after_write(
            after_save(n, j, None, at).0,
            j,
            Ok(ms),
            at,
        ).0,
        ActionView::Nothing | ActionView::SaveMap => n,
    }
}

/// One look is enough: a window that has a button in the taskbar and whose id can be
/// read is done with after a look whose save and write work. A window without a button
/// is not done with, so that a later event leads to another look.
pub proof fn law_one_look_is_enough(
    m: Watch,
    trigger: Trigger,
    key: usize,
    f: WindowFacts,
    at: Seq<char>,
    ms: Seq<char>,
)
    requires
        m.strategy is Group && !m.dry_run ==> m.map is Some,
    ensures
        f.app_window() && !f.cloaked() && f.aumid is Ok ==> carried_out(
            m,
            trigger,
            key,
            f,
            at,
            ms,
        ).handled.contains(key),
        !f.app_window() || (f.cloaked() && !f.shell_window()) ==> carried_out(
            m,
            trigger,
            key,
            f,
            at,
            ms,
        ).handled == m.handled,
{
}

/// What the suffix line writes can be undone: stripping the suffix gives back the
/// id that the window had, where there was room for all of it, and what was kept
/// of it else.
pub proof fn law_suffix_line_can_be_undone(
    m: Watch,
    trigger: Trigger,
    key: usize,
    f: WindowFacts,
    at: Seq<char>,
)
    requires
        m.strategy is Ungroup,
    ensures
        considered(m, trigger, key, f, at).1.action matches ActionView::Write(j) ==> {
            &&& appid::stripped(j.value, key) == Some(appid::head(j.aumid, key))
            &&& appid::fits(j.aumid, key) ==> appid::stripped(j.value, key) == Some(j.aumid)
        },
{
    if f.aumid is Ok {
        appid::law_strip_undoes_suffix(f.aumid->Ok_0@, key);
    }
}

/// Every window that carries no marker is marked: one that has a button in the taskbar, is
/// none of the shell and not cloaked, and whose id can be read, whatever that id is, an
/// empty one too. On the suffix line its id with the suffix is written; on the group line
/// the shared id, once its own id is in the map and the map is saved. In a dry run, or
/// without a map, nothing is written.
pub proof fn law_unmarked_window_is_marked(
    m: Watch,
    trigger: Trigger,
    key: usize,
    f: WindowFacts,
    at: Seq<char>,
)
    requires
        f.app_window(),
        !f.shell_window(),
        !f.cloaked(),
        f.aumid matches Ok(a) && !appid::has_marker(a@) && !appid::is_group(a@),
    ensures
        ({
            let a = f.aumid->Ok_0@;
            let (n, r) = considered(m, trigger, key, f, at);
            &&& n.stats.candidates == next(m.stats.candidates)
            &&& !m.dry_run && m.strategy is Ungroup ==> {
                &&& r.output is Silent
                &&& r.action matches ActionView::Write(j) && j.key == key && j.trigger == trigger
                    && j.aumid == a && j.value == appid::suffixed(a, key) && !j.again
                    && j.window == window_text(key, f)
                &&& n == (Watch { stats: n.stats, ..m })
            }
            &&& !m.dry_run && m.strategy is Group && m.map is Some ==> {
                &&& r.output is Silent
                &&& r.action matches ActionView::SaveThenWrite(j) && j.key == key && j.trigger
                    == trigger && j.aumid == a && j.value == m.group_value && !j.again
                    && j.window == window_text(key, f)
                &&& n == (Watch {
                    stats: n.stats,
                    map: Some(m.map->0.insert(key, (m.group_value, a))),
                    ..m
                })
            }
            &&& !m.dry_run && m.strategy is Group && m.map is None ==> {
                &&& r.action is Nothing
                &&& r.output == OutputView::Line(
                    at + " "@ + trigger_name(trigger) + " "@ + window_text(key, f)
                        + " group write FAILED: no restore map loaded"@,
                )
                &&& n == (Watch { stats: n.stats, ..m })
                &&& n.stats.write_fail == next(m.stats.write_fail)
            }
            &&& m.dry_run ==> {
                &&& r.action is Nothing
                &&& r.output == OutputView::Line(
                    at + " "@ + trigger_name(trigger) + " "@ + window_text(key, f)
                        + " [dry-run] aumid="@ + text::debug_text(winutil::shown(a)) + " -> "@
                        + text::debug_text(
                        if m.strategy is Group {
                            m.group_value
                        } else {
                            appid::suffixed(a, key)
                        },
                    ) + (if m.strategy is Group {
                        " (group)"@
                    } else {
                        Seq::empty()
                    }),
                )
                &&& n == (Watch { stats: n.stats, handled: m.handled.insert(key), ..m })
                &&& n.stats.dry_run_hits == next(m.stats.dry_run_hits)
            }
            &&& n.stats == (Stats {
                candidates: next(m.stats.candidates),
                truncated: if m.strategy is Ungroup && !appid::fits(a, key) {
                    next(m.stats.truncated)
                } else {
                    m.stats.truncated
                },
                dry_run_hits: n.stats.dry_run_hits,
                write_fail: n.stats.write_fail,
                ..m.stats
            })
            &&& !m.dry_run ==> n.stats.dry_run_hits == m.stats.dry_run_hits
            &&& m.dry_run || m.strategy is Ungroup || m.map is Some ==> n.stats.write_fail
                == m.stats.write_fail
        }),
{
    let a = f.aumid->Ok_0@;
    if appid::stripped(a, key) is Some {
        appid::law_stripped_has_marker(a, key);
    }
}

/// A window that is not marked is left alone, and it is counted why: it has no button, it is
/// one of the shell, it is cloaked, its id cannot be read, or the id carries a marker
/// already. Of these the second and the last are done with; the others are looked at again.
/// What is skipped is printed only where that was asked for, and windows without a button
/// never are.
pub proof fn law_other_windows_are_left_alone(
    m: Watch,
    trigger: Trigger,
    key: usize,
    f: WindowFacts,
    at: Seq<char>,
)
    ensures
        ({
            let (n, r) = considered(m, trigger, key, f, at);
            let told = at + " "@ + trigger_name(trigger) + " "@ + window_text(key, f) + " skip: "@;
            let s = m.stats;
            &&& !f.app_window() ==> r.action is Nothing && r.output is Silent && n == (Watch {
                stats: Stats { skipped_not_app_window: next(s.skipped_not_app_window), ..s },
                ..m
            })
            &&& f.app_window() && f.shell_window() ==> r.action is Nothing && r.output == (
            if m.verbose {
                OutputView::Line(told + "shell window"@)
            } else {
                OutputView::Silent
            }) && n == (Watch {
                stats: Stats { skipped_shell: next(s.skipped_shell), ..s },
                handled: m.handled.insert(key),
                ..m
            })
            &&& f.app_window() && !f.shell_window() && f.cloaked() ==> r.action is Nothing
                && r.output == (if m.verbose {
                OutputView::Line(told + "cloaked"@)
            } else {
                OutputView::Silent
            }) && n == (Watch {
                stats: Stats { skipped_cloaked: next(s.skipped_cloaked), ..s },
                ..m
            })
            &&& f.app_window() && !f.shell_window() && !f.cloaked() ==> (f.aumid matches Err(e)
                ==> r.action is Nothing && r.output == (if m.verbose {
                OutputView::Line(told + ("AUMID read failed: "@ + e@))
            } else {
                OutputView::Silent
            }) && n == (Watch {
                stats: Stats { skipped_read_fail: next(s.skipped_read_fail), ..s },
                ..m
            }))
            &&& f.app_window() && !f.shell_window() && !f.cloaked() ==> (f.aumid matches Ok(a)
                ==> (appid::has_marker(a@) || appid::is_group(a@)) ==> {
                let own = appid::stripped(a@, key) is Some;
                // Along the group line a group id goes before a suffix, else the other way.
                let crossing = if m.strategy is Group {
                    !appid::is_group(a@)
                } else {
                    !appid::has_marker(a@)
                };
                &&& r.action is Nothing
                &&& r.output == (if m.verbose {
                    OutputView::Line(
                        told + (if m.strategy is Group && crossing {
                            "cross-line marker (line 1 suffix)"@
                        } else if m.strategy is Group {
                            "already marked (line 2 group AUMID)"@
                        } else if crossing {
                            "cross-line marker (line 2 group AUMID)"@
                        } else if own {
                            "already marked (line 1 suffix)"@
                        } else {
                            "already marked (suffix-like value not written by this tool for this window; skipped to avoid stacking)"@
                        }),
                    )
                } else {
                    OutputView::Silent
                })
                &&& n == (Watch { stats: n.stats, handled: m.handled.insert(key), ..m })
                &&& n.stats == (if crossing {
                    Stats { skipped_cross_line: next(s.skipped_cross_line), ..s }
                } else if m.sweep is Startup {
                    Stats { startup_sweep_marked: next(s.startup_sweep_marked), ..s }
                } else if m.sweep is Resweep {
                    Stats { resweep_marked: next(s.resweep_marked), ..s }
                } else {
                    Stats { skipped_already_marked: next(s.skipped_already_marked), ..s }
                })
            })
        }),
{
    if f.aumid is Ok {
        let a = f.aumid->Ok_0@;
        if appid::stripped(a, key) is Some {
            appid::law_stripped_has_marker(a, key);
        }
    }
}

/// A marker that is gone is written again: a window that is done with, is none of the shell,
/// and whose id can be read and carries no marker, gets one, whatever its id is. On the
/// group line the original that is known stays; one that is not known is put into the map
/// first. All else is left alone.
pub proof fn law_lost_marker_is_written_again(
    m: Watch,
    key: usize,
    f: WindowFacts,
    at: Seq<char>,
)
    ensures
        ({
            let (n, r) = rechecked(m, key, f, at);
            let a = f.aumid->Ok_0@;
            let lost = !m.dry_run && !f.shell_window() && f.aumid is Ok && !appid::has_marker(a)
                && !appid::is_group(a);
            let known = m.map matches Some(es) && es.contains_key(key) && es[key].0
                == m.group_value;
            &&& !lost ==> n == m && r.action is Nothing && r.output is Silent
            &&& lost && m.strategy is Ungroup ==> r.output is Silent && n == (Watch {
                stats: Stats {
                    truncated: if appid::fits(a, key) {
                        m.stats.truncated
                    } else {
                        next(m.stats.truncated)
                    },
                    ..m.stats
                },
                ..m
            }) && (r.action matches ActionView::Write(j) && j.key == key && j.aumid == a && j.value
                == appid::suffixed(a, key) && j.again && j.window == window_text(key, f))
            &&& lost && m.strategy is Group && m.map is Some ==> r.output is Silent && n == (Watch {
                map: if known {
                    m.map
                } else {
                    Some(m.map->0.insert(key, (m.group_value, a)))
                },
                ..m
            }) && (job_of(r.action) matches Some(j) && j.key == key && j.aumid == a && j.value
                == m.group_value && j.again && j.window == window_text(key, f)) && (r.action is Write
                <==> known) && (r.action is SaveThenWrite <==> !known)
            &&& lost && m.strategy is Group && m.map is None ==> r.action is Nothing && r.output
                == OutputView::Error(
                at + " REASSERT "@ + window_text(key, f)
                    + " group reassert FAILED: no restore map loaded"@,
            ) && n == (Watch {
                stats: Stats { write_fail: next(m.stats.write_fail), ..m.stats },
                ..m
            })
        }),
{
    reveal_strlit(" REASSERT ");
    reveal_strlit("REASSERT");
    reveal_strlit(" ");
    let w = window_text(key, f);
    assert(at + " REASSERT "@ + w =~= at + " "@ + "REASSERT"@ + " "@ + w) by {
        assert(" REASSERT "@ =~= " "@ + "REASSERT"@ + " "@);
    }
    if f.aumid is Ok {
        let a = f.aumid->Ok_0@;
        if appid::stripped(a, key) is Some {
            appid::law_stripped_has_marker(a, key);
        }
    }
}

/// A save that worked is followed by the write that it was for. One that failed takes the
/// entry out of the map again and is told, and there is no write.
pub proof fn law_write_follows_save(m: Watch, j: JobView, at: Seq<char>, e: Seq<char>)
    ensures
        after_save(m, j, None, at) == (
            m,
            ReplyView { output: OutputView::Silent, action: ActionView::Write(j) },
        ),
        ({
            let (n, r) = after_save(m, j, Some(e), at);
            &&& n == (Watch {
                map: match m.map {
                    Some(es) => Some(es.remove(j.key)),
                    None => None,
                },
                stats: Stats { write_fail: next(m.stats.write_fail), ..m.stats },
                ..m
            })
            &&& r.action is Nothing
            &&& r.output == (if j.again {
                OutputView::Error(
                    at + " "@ + "REASSERT"@ + " "@ + j.window + " map save FAILED: "@ + e
                        + " (AUMID left untouched)"@,
                )
            } else {
                OutputView::Line(
                    at + " "@ + trigger_name(j.trigger) + " "@ + j.window
                        + " group write FAILED: "@ + e + " (AUMID left untouched)"@,
                )
            })
        }),
{
}

/// A write that worked leaves the window written to, and done with where it was the first;
/// it is counted, also for the sweep that is under way, and told with both ids. One that
/// failed is counted and told, and leaves the window as it was; on the group line a first
/// write takes its entry along, and the map is saved without it.
pub proof fn law_writes_are_booked(m: Watch, j: JobView, at: Seq<char>, ms: Seq<char>, e: Seq<char>)
    ensures
        ({
            let (n, r) = after_write(m, j, Ok(ms), at);
            let s = m.stats;
            let name = if j.again {
                "REASSERT"@
            } else {
                trigger_name(j.trigger)
            };
            &&& n == (Watch {
                rewritten: m.rewritten.insert(j.key),
                handled: if j.again {
                    m.handled
                } else {
                    m.handled.insert(j.key)
                },
                stats: n.stats,
                ..m
            })
            &&& j.again ==> n.stats == (Stats { reasserted: next(s.reasserted), ..s })
            &&& !j.again ==> n.stats == (Stats {
                rewritten: next(s.rewritten),
                startup_sweep_rewritten: if m.sweep is Startup {
                    next(s.startup_sweep_rewritten)
                } else {
                    s.startup_sweep_rewritten
                },
                resweep_rewritten: if m.sweep is Resweep {
                    next(s.resweep_rewritten)
                } else {
                    s.resweep_rewritten
                },
                ..s
            })
            &&& r.action is Nothing
            &&& r.output == OutputView::Line(
                at + " "@ + name + " "@ + j.window + " aumid="@ + text::debug_text(
                    winutil::shown(j.aumid),
                ) + " -> "@ + text::debug_text(j.value) + (if j.again {
                    " (marker lost, re-applied, write "@
                } else if m.strategy is Group {
                    " (group, write "@
                } else {
                    " (write "@
                }) + ms + "ms)"@,
            )
        }),
        ({
            let (n, r) = after_write(m, j, Err(e), at);
            let dropped = m.strategy is Group && !j.again;
            &&& n == (Watch {
                stats: Stats { write_fail: next(m.stats.write_fail), ..m.stats },
                map: match m.map {
                    Some(es) if dropped => Some(es.remove(j.key)),
                    _ => m.map,
                },
                ..m
            })
            &&& r.action == (if dropped && m.map is Some {
                ActionView::SaveMap
            } else {
                ActionView::Nothing
            })
            &&& r.output == (if j.again {
                OutputView::Error(
                    at + " "@ + "REASSERT"@ + " "@ + j.window + " write FAILED: "@ + e,
                )
            } else {
                OutputView::Line(
                    at + " "@ + trigger_name(j.trigger) + " "@ + j.window + " aumid="@
                        + text::debug_text(j.aumid) + (if m.strategy is Group {
                        " group write FAILED: "@
                    } else {
                        " write FAILED: "@
                    }) + e,
                )
            })
        }),
{
}

/// A window that is not done with is looked at when it is created, shown or renamed, whether
/// or not a sweep has seen it; one that is done with has its marker checked when it is
/// renamed. Each event is counted, and nothing else changes.
pub proof fn law_events_lead_to_looks(m: Watch, hwnd: usize)
    requires
        hwnd != 0,
    ensures
        ({
            let s = m.stats;
            let created = Stats { events_create: next(s.events_create), ..s };
            let shown = Stats { events_show: next(s.events_show), ..s };
            let renamed = Stats { events_namechange: next(s.events_namechange), ..s };
            let dupe = next(s.skipped_dupe);
            &&& !m.handled.contains(hwnd) ==> {
                &&& happened(m, 0x8000, hwnd, 0, 0) == (
                    Watch { stats: created, ..m },
                    Next::Consider(Trigger::Create),
                )
                &&& happened(m, 0x8002, hwnd, 0, 0) == (
                    Watch { stats: shown, ..m },
                    Next::Consider(Trigger::Show),
                )
                &&& happened(m, 0x800C, hwnd, 0, 0) == (
                    Watch { stats: renamed, ..m },
                    Next::Consider(Trigger::Name),
                )
            }
            &&& m.handled.contains(hwnd) ==> {
                &&& happened(m, 0x8000, hwnd, 0, 0) == (
                    Watch { stats: Stats { skipped_dupe: dupe, ..created }, ..m },
                    Next::Ignore,
                )
                &&& happened(m, 0x8002, hwnd, 0, 0) == (
                    Watch { stats: Stats { skipped_dupe: dupe, ..shown }, ..m },
                    Next::Ignore,
                )
                &&& happened(m, 0x800C, hwnd, 0, 0) == (
                    Watch { stats: renamed, ..m },
                    Next::Reassert,
                )
            }
        }),
{
}

/// A destroyed window leaves every set that it was in, and the map where it was done with on
/// the group line; the map is saved where an entry left it. Events of other objects, of
/// other kinds or of no window lead to nothing.
pub proof fn law_other_events(m: Watch, event: u32, hwnd: usize, idobject: i32, idchild: i32)
    ensures
        idobject != 0 || idchild != 0 || hwnd == 0 || (event != 0x8000 && event != 0x8001 && event
            != 0x8002 && event != 0x800C) ==> happened(m, event, hwnd, idobject, idchild) == (
            m,
            Next::Ignore,
        ),
        hwnd != 0 ==> ({
            let (n, what) = happened(m, 0x8001, hwnd, 0, 0);
            let drops = m.strategy is Group && m.handled.contains(hwnd) && (m.map matches Some(es)
                && es.contains_key(hwnd));
            &&& n == (Watch {
                handled: m.handled.remove(hwnd),
                rewritten: m.rewritten.remove(hwnd),
                baseline: m.baseline.remove(hwnd),
                map: if drops {
                    Some(m.map->0.remove(hwnd))
                } else {
                    m.map
                },
                stats: Stats {
                    events_destroy_tracked: if m.handled.contains(hwnd) || m.baseline.contains(
                        hwnd,
                    ) {
                        next(m.stats.events_destroy_tracked)
                    } else {
                        m.stats.events_destroy_tracked
                    },
                    ..m.stats
                },
                ..m
            })
            &&& what == (if drops {
                Next::SaveMap
            } else {
                Next::Ignore
            })
        }),
{
}

/// Counters count up by one, and from the greatest number on from zero again.
pub proof fn law_counters(n: u64)
    ensures
        n < u64::MAX ==> next(n) == n + 1,
        next(u64::MAX) == 0,
{
}

/// A sweep is under way from its beginning to its end; each window that it comes to belongs
/// to the windows seen, whose number at the end of the first sweep is kept. Nothing else
/// changes but the count of restarts.
pub proof fn law_sweeps(m: Watch, key: usize)
    ensures
        startup_begun(m) == (Watch { sweep: SweepKind::Startup, ..m }),
        resweep_begun(m) == (Watch {
            sweep: SweepKind::Resweep,
            stats: Stats { shell_restarts: next(m.stats.shell_restarts), ..m.stats },
            ..m
        }),
        swept(m, key) == (Watch { baseline: m.baseline.insert(key), ..m }),
        startup_ended(m) == (Watch {
            sweep: SweepKind::Idle,
            baseline_count: m.baseline.len() as u64,
            ..m
        }),
        resweep_ended(m) == (Watch { sweep: SweepKind::Idle, ..m }),
{
}

/// A window in one line names its handle, process, class and title, the latter two clipped,
/// and the title in quotes. Triggers and lines have names of their own.
pub proof fn law_window_line(key: usize, f: WindowFacts)
    ensures
        window_text(key, f) == "0x"@ + num::hex(key as nat) + " pid="@ + num::decimal(f.pid as nat)
            + " class="@ + text::clipped(f.class@, 32) + " title="@ + text::debug_text(
            text::clipped(f.title@, 40),
        ),
        trigger_name(Trigger::Create) == "CREATE"@,
        trigger_name(Trigger::Show) == "SHOW"@,
        trigger_name(Trigger::Name) == "NAME"@,
        trigger_name(Trigger::Sweep) == "SWEEP"@,
        trigger_name(Trigger::Resweep) == "RESWEEP"@,
        strategy_label(WatchStrategy::Ungroup) == "ungroup (per-window suffix, line 1)"@,
        strategy_label(WatchStrategy::Group) == "group (shared AUMID, line 2)"@,
{
}

/// The watcher is taken for what its fields hold.
pub proof fn law_watcher_is_its_fields(s: WatcherState, m: RestoreMap)
    ensures
        s@.dry_run == s.dry_run,
        s@.verbose == s.verbose,
        s@.strategy == s.strategy,
        s@.group_value == s.group_value@,
        s.map == Some(m) ==> s@.map == Some(m@),
        s.map is None ==> s@.map is None,
        s@.baseline == s.baseline@,
        s@.baseline_count == s.baseline_count,
        s@.handled == s.handled@,
        s@.rewritten == s.rewritten@,
        s@.sweep == s.sweep_kind,
        s@.stats == s.stats,
{
}

/// An answer is taken for what it says and asks for, and a write for what its fields hold.
pub proof fn law_answer_is_its_fields(r: Reply, j: Job, line: String)
    ensures
        r@.output == r.output@,
        r@.action == r.action@,
        Output::Silent@ == OutputView::Silent,
        Output::Line(line)@ == OutputView::Line(line@),
        Output::Error(line)@ == OutputView::Error(line@),
        Action::Nothing@ == ActionView::Nothing,
        Action::SaveMap@ == ActionView::SaveMap,
        Action::Write(j)@ == ActionView::Write(j@),
        Action::SaveThenWrite(j)@ == ActionView::SaveThenWrite(j@),
        j@.key == j.key,
        j@.trigger == j.trigger,
        j@.window == j.window@,
        j@.aumid == j.aumid@,
        j@.value == j.value@,
        j@.again == j.again,
{
}

/// In the beginning nothing is counted.
pub proof fn law_nothing_counted_yet()
    ensures
        ({
            let s = Stats::zero();
            &&& s.events_create == 0 && s.events_show == 0 && s.events_namechange == 0
            &&& s.events_destroy_tracked == 0 && s.candidates == 0 && s.rewritten == 0
            &&& s.dry_run_hits == 0 && s.truncated == 0 && s.write_fail == 0 && s.reasserted == 0
            &&& s.skipped_dupe == 0 && s.skipped_not_app_window == 0 && s.skipped_shell == 0
            &&& s.skipped_cloaked == 0 && s.skipped_read_fail == 0 && s.skipped_already_marked == 0
            &&& s.skipped_cross_line == 0 && s.startup_sweep_rewritten == 0
            &&& s.startup_sweep_marked == 0 && s.shell_restarts == 0
            &&& s.resweep_rewritten == 0 && s.resweep_marked == 0
        }),
{
}

// ---------------------------------------------------------------------------
// Functions
// ---------------------------------------------------------------------------

/// The next value of a counter.
fn bumped(n: u64) -> (r: u64)
    ensures
        r == next(n),
{
    if n == u64::MAX {
        0
    } else {
        n + 1
    }
}

/// The first `max` characters of a text; where some are left out, a tilde takes
/// the place of the last.
pub fn clip(s: &str, max: usize) -> (r: String)
    ensures
        r@ == text::clipped(s@, max as nat),
{
    text::clip_text(s, max)
}

/// A window in one line; `title` is its title in quotes.
pub fn titled_window(key: usize, f: &WindowFacts, title: &str) -> (r: String)
    ensures
        r@ == window_titled(key, *f, title@),
{
    let mut r: String = "0x".to_owned();
    r.push_str(winutil::hwnd_hex(key).as_str());
    r.push_str(" pid=");
    r.push_str(num::decimal_text(f.pid as u64).as_str());
    r.push_str(" class=");
    r.push_str(clip(f.class.as_str(), 32).as_str());
    r.push_str(" title=");
    r.push_str(title);
    r
}

/// A window in one line.
pub fn fmt_window(key: usize, f: &WindowFacts) -> (r: String)
    ensures
        r@ == window_text(key, *f),
{
    let title: String = text::debug_quoted(clip(f.title.as_str(), 40).as_str());
    titled_window(key, f, title.as_str())
}

/// What is said of a candidate in a dry run; `before` and `after` are ids in quotes.
pub fn dry_run_line(head: &str, before: &str, after: &str, strategy: WatchStrategy) -> (r: String)
    ensures
        r@ == dry_run_text(head@, before@, after@, strategy),
{
    let mut r: String = head.to_owned();
    r.push_str(" [dry-run] aumid=");
    r.push_str(before);
    r.push_str(" -> ");
    r.push_str(after);
    match strategy {
        WatchStrategy::Group => {
            r.push_str(" (group)");
        },
        WatchStrategy::Ungroup => {
            assert(r@ + Seq::<char>::empty() =~= r@);
        },
    }
    r
}

/// What is said of a write that worked; `before` and `after` are ids in quotes, and
/// `again` is whether a marker was lost and written again.
pub fn change_line(
    head: &str,
    before: &str,
    after: &str,
    strategy: WatchStrategy,
    again: bool,
    ms: &str,
) -> (r: String)
    ensures
        r@ == change_text(head@, before@, after@, strategy, again, ms@),
{
    let mut r: String = head.to_owned();
    r.push_str(" aumid=");
    r.push_str(before);
    r.push_str(" -> ");
    r.push_str(after);
    if again {
        r.push_str(" (marker lost, re-applied, write ");
    } else {
        match strategy {
            WatchStrategy::Ungroup => {
                r.push_str(" (write ");
            },
            WatchStrategy::Group => {
                r.push_str(" (group, write ");
            },
        }
    }
    r.push_str(ms);
    r.push_str("ms)");
    r
}

/// What is said of a first write that failed; `aumid` is the id in quotes.
pub fn failure_line(head: &str, aumid: &str, strategy: WatchStrategy, e: &str) -> (r: String)
    ensures
        r@ == failure_text(head@, aumid@, strategy, e@),
{
    let mut r: String = head.to_owned();
    r.push_str(" aumid=");
    r.push_str(aumid);
    match strategy {
        WatchStrategy::Ungroup => {
            r.push_str(" write FAILED: ");
        },
        WatchStrategy::Group => {
            r.push_str(" group write FAILED: ");
        },
    }
    r.push_str(e);
    r
}

/// The start of a line of the log.
fn line_start(at: &str, name: &str, window: &str) -> (r: String)
    ensures
        r@ == line_head(at@, name@, window@),
{
    let mut r: String = at.to_owned();
    r.push_str(" ");
    r.push_str(name);
    r.push_str(" ");
    r.push_str(window);
    r
}

impl WatchStrategy {
    /// The name of the line.
    pub fn label(&self) -> (r: &'static str)
        ensures
            r@ == strategy_label(*self),
    {
        match self {
            WatchStrategy::Ungroup => "ungroup (per-window suffix, line 1)",
            WatchStrategy::Group => "group (shared AUMID, line 2)",
        }
    }
}

impl Trigger {
    /// The name of the trigger.
    pub fn name(&self) -> (r: &'static str)
        ensures
            r@ == trigger_name(*self),
    {
        match self {
            Trigger::Create => "CREATE",
            Trigger::Show => "SHOW",
            Trigger::Name => "NAME",
            Trigger::Sweep => "SWEEP",
            Trigger::Resweep => "RESWEEP",
        }
    }
}

impl Stats {
    /// Nothing counted yet.
    pub open spec fn zero() -> Stats {
        Stats {
            events_create: 0,
            events_show: 0,
            events_namechange: 0,
            events_destroy_tracked: 0,
            candidates: 0,
            rewritten: 0,
            dry_run_hits: 0,
            truncated: 0,
            write_fail: 0,
            reasserted: 0,
            skipped_dupe: 0,
            skipped_not_app_window: 0,
            skipped_shell: 0,
            skipped_cloaked: 0,
            skipped_read_fail: 0,
            skipped_already_marked: 0,
            skipped_cross_line: 0,
            startup_sweep_rewritten: 0,
            startup_sweep_marked: 0,
            shell_restarts: 0,
            resweep_rewritten: 0,
            resweep_marked: 0,
        }
    }
}

impl Default for Stats {
    fn default() -> (s: Stats)
        ensures
            s == Stats::zero(),
    {
        Stats {
            events_create: 0,
            events_show: 0,
            events_namechange: 0,
            events_destroy_tracked: 0,
            candidates: 0,
            rewritten: 0,
            dry_run_hits: 0,
            truncated: 0,
            write_fail: 0,
            reasserted: 0,
            skipped_dupe: 0,
            skipped_not_app_window: 0,
            skipped_shell: 0,
            skipped_cloaked: 0,
            skipped_read_fail: 0,
            skipped_already_marked: 0,
            skipped_cross_line: 0,
            startup_sweep_rewritten: 0,
            startup_sweep_marked: 0,
            shell_restarts: 0,
            resweep_rewritten: 0,
            resweep_marked: 0,
        }
    }
}

/// What the id of a window says about marking it.
fn mark_of(strategy: WatchStrategy, key: usize, aumid: &str) -> (r: Verdict)
    ensures
        r == marked(strategy, key, aumid@),
{
    match strategy {
        WatchStrategy::Ungroup => {
            if appid::strip_suffix(aumid, key).is_some() {
                Verdict::OwnSuffix
            } else if text::contains_text(aumid, appid::SUFFIX_MARKER) {
                Verdict::SuffixLike
            } else if appid::is_group_aumid(aumid) {
                Verdict::CrossGroup
            } else {
                Verdict::Candidate
            }
        },
        WatchStrategy::Group => {
            if appid::is_group_aumid(aumid) {
                Verdict::OwnGroup
            } else if text::contains_text(aumid, appid::SUFFIX_MARKER) {
                Verdict::CrossSuffix
            } else {
                Verdict::Candidate
            }
        },
    }
}

/// What a look at a window shows.
pub fn judge(strategy: WatchStrategy, key: usize, f: &WindowFacts) -> (r: Verdict)
    ensures
        r == judged(strategy, key, *f),
{
    if !f.is_app_window() {
        return Verdict::NotApp;
    }
    if f.is_shell_window() {
        return Verdict::Shell;
    }
    if f.is_cloaked() {
        return Verdict::Cloaked;
    }
    match &f.aumid {
        Err(_) => Verdict::ReadFail,
        Ok(a) => mark_of(strategy, key, a.as_str()),
    }
}

/// Why a window is skipped.
fn reason_of(v: Verdict, f: &WindowFacts) -> (r: String)
    requires
        v == Verdict::ReadFail ==> f.aumid is Err,
    ensures
        r@ == skip_reason(v, *f),
{
    match v {
        Verdict::Shell => "shell window".to_owned(),
        Verdict::Cloaked => "cloaked".to_owned(),
        Verdict::ReadFail => {
            let mut r: String = "AUMID read failed: ".to_owned();
            if let Err(e) = &f.aumid {
                r.push_str(e.as_str());
            }
            r
        },
        Verdict::OwnSuffix => "already marked (line 1 suffix)".to_owned(),
        Verdict::SuffixLike =>
            "already marked (suffix-like value not written by this tool for this window; skipped to avoid stacking)".to_owned(),
        Verdict::CrossGroup => "cross-line marker (line 2 group AUMID)".to_owned(),
        Verdict::OwnGroup => "already marked (line 2 group AUMID)".to_owned(),
        Verdict::CrossSuffix => "cross-line marker (line 1 suffix)".to_owned(),
        Verdict::NotApp | Verdict::Candidate => String::new(),
    }
}

impl WatcherState {
    /// A watcher that has seen nothing yet.
    pub fn new(opts: &WatchOptions, group_value: String, map: Option<RestoreMap>) -> (w:
        WatcherState)
        ensures
            w@ == (Watch {
                dry_run: opts.dry_run,
                verbose: opts.verbose,
                strategy: opts.strategy,
                group_value: group_value@,
                map: match map {
                    Some(m) => Some(m@),
                    None => None,
                },
                baseline: Set::empty(),
                baseline_count: 0,
                handled: Set::empty(),
                rewritten: Set::empty(),
                sweep: SweepKind::Idle,
                stats: Stats::zero(),
            }),
    {
        WatcherState {
            dry_run: opts.dry_run,
            verbose: opts.verbose,
            strategy: opts.strategy,
            group_value,
            map,
            baseline: HashSet::new(),
            baseline_count: 0,
            handled: HashSet::new(),
            rewritten: HashSet::new(),
            sweep_kind: SweepKind::Idle,
            stats: Stats::default(),
        }
    }

    /// Counts a verdict.
    fn tally(&mut self, v: Verdict)
        ensures
            final(self)@ == (Watch {
                stats: tallied(old(self).stats, v, old(self).sweep_kind),
                ..old(self)@
            }),
    {
        match v {
            Verdict::NotApp => {
                self.stats.skipped_not_app_window = bumped(self.stats.skipped_not_app_window);
            },
            Verdict::Shell => {
                self.stats.skipped_shell = bumped(self.stats.skipped_shell);
            },
            Verdict::Cloaked => {
                self.stats.skipped_cloaked = bumped(self.stats.skipped_cloaked);
            },
            Verdict::ReadFail => {
                self.stats.skipped_read_fail = bumped(self.stats.skipped_read_fail);
            },
            Verdict::CrossGroup | Verdict::CrossSuffix => {
                self.stats.skipped_cross_line = bumped(self.stats.skipped_cross_line);
            },
            Verdict::OwnSuffix | Verdict::SuffixLike | Verdict::OwnGroup => match self.sweep_kind {
                SweepKind::Startup => {
                    self.stats.startup_sweep_marked = bumped(self.stats.startup_sweep_marked);
                },
                SweepKind::Resweep => {
                    self.stats.resweep_marked = bumped(self.stats.resweep_marked);
                },
                SweepKind::Idle => {
                    self.stats.skipped_already_marked = bumped(self.stats.skipped_already_marked);
                },
            },
            Verdict::Candidate => {
                self.stats.candidates = bumped(self.stats.candidates);
            },
        }
    }

    /// Counts a failed write.
    fn count_failure(&mut self)
        ensures
            final(self)@ == failed(old(self)@),
    {
        self.stats.write_fail = bumped(self.stats.write_fail);
    }

    /// Puts the entry of a window into the restore map.
    fn remember(&mut self, key: usize, aumid: &str)
        ensures
            final(self)@ == recorded(old(self)@, key, aumid@),
    {
        match &mut self.map {
            Some(map) => {
                map.record(key, self.group_value.as_str(), aumid);
            },
            None => {},
        }
    }

    /// Takes the entry of a window out of the restore map; says whether there was
    /// one.
    fn forget(&mut self, key: usize) -> (r: bool)
        ensures
            final(self)@ == forgotten(old(self)@, key),
            r == (old(self)@.map matches Some(es) && es.contains_key(key)),
    {
        match &mut self.map {
            Some(map) => map.remove(key),
            None => false,
        }
    }

    /// The write that marks a window.
    fn job(&self, key: usize, trigger: Trigger, f: &WindowFacts, aumid: &str, again: bool) -> (r: (
        Job,
        bool,
    ))
        ensures
            r.0@ == (JobView {
                key,
                trigger,
                window: window_text(key, *f),
                aumid: aumid@,
                value: target(self@, key, aumid@),
                again,
            }),
            r.1 == (self.strategy is Ungroup && !appid::fits(aumid@, key)),
    {
        let window: String = fmt_window(key, f);
        match self.strategy {
            WatchStrategy::Ungroup => {
                let s: appid::SuffixedAumid = appid::suffixed_aumid(aumid, key);
                (
                    Job { key, trigger, window, aumid: aumid.to_owned(), value: s.value, again },
                    s.truncated,
                )
            },
            WatchStrategy::Group => (
                Job {
                    key,
                    trigger,
                    window,
                    aumid: aumid.to_owned(),
                    value: self.group_value.clone(),
                    again,
                },
                false,
            ),
        }
    }

    /// Looks at a window, for the trigger given; `at` is the time, for the log.
    pub fn consider(&mut self, trigger: Trigger, key: usize, f: &WindowFacts, at: &str) -> (r:
        Reply)
        ensures
            (final(self)@, r@) == considered(old(self)@, trigger, key, *f, at@),
    {
        let v: Verdict = judge(self.strategy, key, f);
        self.tally(v);
        match v {
            Verdict::Candidate => {
                if let Ok(aumid) = &f.aumid {
                    match self.strategy {
                        WatchStrategy::Ungroup => self.apply_ungroup(
                            trigger,
                            key,
                            f,
                            aumid.as_str(),
                            at,
                        ),
                        WatchStrategy::Group => self.apply_group(
                            trigger,
                            key,
                            f,
                            aumid.as_str(),
                            at,
                        ),
                    }
                } else {
                    Reply { output: Output::Silent, action: Action::Nothing }
                }
            },
            Verdict::NotApp => Reply { output: Output::Silent, action: Action::Nothing },
            _ => {
                if v != Verdict::Cloaked && v != Verdict::ReadFail {
                    self.handled.insert(key);
                }
                if self.verbose {
                    self.log_skip(trigger, key, f, v, at)
                } else {
                    Reply { output: Output::Silent, action: Action::Nothing }
                }
            },
        }
    }

    /// The line about a window that is skipped.
    fn log_skip(&self, trigger: Trigger, key: usize, f: &WindowFacts, v: Verdict, at: &str) -> (r:
        Reply)
        requires
            v == Verdict::ReadFail ==> f.aumid is Err,
        ensures
            r@ == says(
                line_head(at@, trigger_name(trigger), window_text(key, *f)) + " skip: "@
                    + skip_reason(v, *f),
            ),
    {
        let mut line: String = line_start(at, trigger.name(), fmt_window(key, f).as_str());
        line.push_str(" skip: ");
        line.push_str(reason_of(v, f).as_str());
        Reply { output: Output::Line(line), action: Action::Nothing }
    }

    /// The line about a candidate in a dry run; the window is done with.
    fn log_dry_run(&mut self, j: &Job, at: &str) -> (r: Reply)
        ensures
            final(self)@ == (Watch {
                stats: Stats {
                    dry_run_hits: next(old(self).stats.dry_run_hits),
                    ..old(self).stats
                },
                handled: old(self)@.handled.insert(j.key),
                ..old(self)@
            }),
            r@ == says(
                dry_run_text(
                    line_head(at@, trigger_name(j.trigger), j.window@),
                    text::debug_text(winutil::shown(j.aumid@)),
                    text::debug_text(j.value@),
                    old(self).strategy,
                ),
            ),
    {
        self.stats.dry_run_hits = bumped(self.stats.dry_run_hits);
        self.handled.insert(j.key);
        let line: String = dry_run_line(
            line_start(at, j.trigger.name(), j.window.as_str()).as_str(),
            text::debug_quoted(winutil::shown_aumid(j.aumid.as_str())).as_str(),
            text::debug_quoted(j.value.as_str()).as_str(),
            self.strategy,
        );
        Reply { output: Output::Line(line), action: Action::Nothing }
    }

    /// Marks a candidate on the suffix line.
    fn apply_ungroup(
        &mut self,
        trigger: Trigger,
        key: usize,
        f: &WindowFacts,
        aumid: &str,
        at: &str,
    ) -> (r: Reply)
        requires
            old(self).strategy is Ungroup,
        ensures
            (final(self)@, r@) == tried(
                old(self)@,
                JobView {
                    key,
                    trigger,
                    window: window_text(key, *f),
                    aumid: aumid@,
                    value: target(old(self)@, key, aumid@),
                    again: false,
                },
                at@,
            ),
    {
        let (j, truncated) = self.job(key, trigger, f, aumid, false);
        if truncated {
            self.stats.truncated = bumped(self.stats.truncated);
        }
        if self.dry_run {
            return self.log_dry_run(&j, at);
        }
        Reply { output: Output::Silent, action: Action::Write(j) }
    }

    /// Marks a candidate on the group line.
    fn apply_group(
        &mut self,
        trigger: Trigger,
        key: usize,
        f: &WindowFacts,
        aumid: &str,
        at: &str,
    ) -> (r: Reply)
        requires
            old(self).strategy is Group,
        ensures
            (final(self)@, r@) == tried(
                old(self)@,
                JobView {
                    key,
                    trigger,
                    window: window_text(key, *f),
                    aumid: aumid@,
                    value: target(old(self)@, key, aumid@),
                    again: false,
                },
                at@,
            ),
    {
        let (j, _) = self.job(key, trigger, f, aumid, false);
        if self.dry_run {
            return self.log_dry_run(&j, at);
        }
        if self.map.is_none() {
            self.count_failure();
            let mut line: String = line_start(at, trigger.name(), j.window.as_str());
            line.push_str(" group write FAILED: no restore map loaded");
            return Reply { output: Output::Line(line), action: Action::Nothing };
        }
        self.remember(key, aumid);
        Reply { output: Output::Silent, action: Action::SaveThenWrite(j) }
    }

    /// Looks again at a window that is done with.
    pub fn reassert(&mut self, key: usize, f: &WindowFacts, at: &str) -> (r: Reply)
        ensures
            (final(self)@, r@) == rechecked(old(self)@, key, *f, at@),
    {
        if self.dry_run || f.is_shell_window() {
            return Reply { output: Output::Silent, action: Action::Nothing };
        }
        let aumid: &String = match &f.aumid {
            Ok(a) => a,
            Err(_) => {
                return Reply { output: Output::Silent, action: Action::Nothing };
            },
        };
        if mark_of(self.strategy, key, aumid.as_str()) != Verdict::Candidate {
            return Reply { output: Output::Silent, action: Action::Nothing };
        }
        let (j, truncated) = self.job(key, Trigger::Name, f, aumid.as_str(), true);
        match self.strategy {
            WatchStrategy::Ungroup => {
                if truncated {
                    self.stats.truncated = bumped(self.stats.truncated);
                }
                Reply { output: Output::Silent, action: Action::Write(j) }
            },
            WatchStrategy::Group => {
                let known: bool = match &self.map {
                    None => {
                        self.count_failure();
                        let mut line: String = line_start(at, "REASSERT", j.window.as_str());
                        line.push_str(" group reassert FAILED: no restore map loaded");
                        return Reply { output: Output::Error(line), action: Action::Nothing };
                    },
                    Some(map) => map.peek(key, self.group_value.as_str()).is_some(),
                };
                if known {
                    Reply { output: Output::Silent, action: Action::Write(j) }
                } else {
                    self.remember(key, aumid.as_str());
                    Reply { output: Output::Silent, action: Action::SaveThenWrite(j) }
                }
            },
        }
    }

    /// Is told how the save of the restore map before a write went.
    pub fn saved(&mut self, j: Job, result: Result<(), String>, at: &str) -> (r: Reply)
        ensures
            (final(self)@, r@) == after_save(
                old(self)@,
                j@,
                match result {
                    Ok(()) => None,
                    Err(e) => Some(e@),
                },
                at@,
            ),
    {
        match result {
            Ok(()) => Reply { output: Output::Silent, action: Action::Write(j) },
            Err(e) => {
                self.forget(j.key);
                self.count_failure();
                if j.again {
                    let mut line: String = line_start(at, "REASSERT", j.window.as_str());
                    line.push_str(" map save FAILED: ");
                    line.push_str(e.as_str());
                    line.push_str(" (AUMID left untouched)");
                    Reply { output: Output::Error(line), action: Action::Nothing }
                } else {
                    let mut line: String = line_start(at, j.trigger.name(), j.window.as_str());
                    line.push_str(" group write FAILED: ");
                    line.push_str(e.as_str());
                    line.push_str(" (AUMID left untouched)");
                    Reply { output: Output::Line(line), action: Action::Nothing }
                }
            },
        }
    }

    /// Is told how a write went: how many milliseconds it took, or why it failed.
    pub fn written(&mut self, j: Job, result: Result<String, String>, at: &str) -> (r: Reply)
        ensures
            (final(self)@, r@) == after_write(
                old(self)@,
                j@,
                match result {
                    Ok(ms) => Ok(ms@),
                    Err(e) => Err(e@),
                },
                at@,
            ),
    {
        let name: &str = if j.again {
            "REASSERT"
        } else {
            j.trigger.name()
        };
        let head: String = line_start(at, name, j.window.as_str());
        match result {
            Ok(ms) => {
                let line: String = change_line(
                    head.as_str(),
                    text::debug_quoted(winutil::shown_aumid(j.aumid.as_str())).as_str(),
                    text::debug_quoted(j.value.as_str()).as_str(),
                    self.strategy,
                    j.again,
                    ms.as_str(),
                );
                self.rewritten.insert(j.key);
                if j.again {
                    self.stats.reasserted = bumped(self.stats.reasserted);
                } else {
                    self.stats.rewritten = bumped(self.stats.rewritten);
                    match self.sweep_kind {
                        SweepKind::Startup => {
                            self.stats.startup_sweep_rewritten =
                            bumped(self.stats.startup_sweep_rewritten);
                        },
                        SweepKind::Resweep => {
                            self.stats.resweep_rewritten = bumped(self.stats.resweep_rewritten);
                        },
                        SweepKind::Idle => {},
                    }
                    self.handled.insert(j.key);
                }
                Reply { output: Output::Line(line), action: Action::Nothing }
            },
            Err(e) => {
                if j.again {
                    self.count_failure();
                    let mut line: String = head;
                    line.push_str(" write FAILED: ");
                    line.push_str(e.as_str());
                    return Reply { output: Output::Error(line), action: Action::Nothing };
                }
                let line: String = failure_line(
                    head.as_str(),
                    text::debug_quoted(j.aumid.as_str()).as_str(),
                    self.strategy,
                    e.as_str(),
                );
                let action: Action = match self.strategy {
                    WatchStrategy::Ungroup => Action::Nothing,
                    WatchStrategy::Group => {
                        self.forget(j.key);
                        if self.map.is_some() {
                            Action::SaveMap
                        } else {
                            Action::Nothing
                        }
                    },
                };
                self.count_failure();
                Reply { output: Output::Line(line), action }
            },
        }
    }

    /// Is told of an event.
    pub fn on_event(&mut self, event: u32, hwnd: usize, idobject: i32, idchild: i32) -> (r: Next)
        ensures
            (final(self)@, r) == happened(old(self)@, event, hwnd, idobject, idchild),
    {
        if idobject != OBJID_WINDOW || idchild != 0 || hwnd == 0 {
            return Next::Ignore;
        }
        let trigger: Trigger = if event == EVENT_OBJECT_CREATE {
            self.stats.events_create = bumped(self.stats.events_create);
            Trigger::Create
        } else if event == EVENT_OBJECT_SHOW {
            self.stats.events_show = bumped(self.stats.events_show);
            Trigger::Show
        } else if event == EVENT_OBJECT_NAMECHANGE {
            self.stats.events_namechange = bumped(self.stats.events_namechange);
            Trigger::Name
        } else if event == EVENT_OBJECT_DESTROY {
            let was_handled: bool = self.handled.remove(&hwnd);
            let was_baseline: bool = self.baseline.remove(&hwnd);
            self.rewritten.remove(&hwnd);
            if was_handled || was_baseline {
                self.stats.events_destroy_tracked = bumped(self.stats.events_destroy_tracked);
            }
            if was_handled && self.strategy == WatchStrategy::Group {
                let ghost before = self@;
                if self.forget(hwnd) {
                    return Next::SaveMap;
                }
                proof {
                    if before.map is Some {
                        assert(before.map->0.remove(hwnd) =~= before.map->0);
                    }
                }
            }
            return Next::Ignore;
        } else {
            return Next::Ignore;
        };
        if self.handled.contains(&hwnd) {
            if event == EVENT_OBJECT_NAMECHANGE {
                return Next::Reassert;
            }
            self.stats.skipped_dupe = bumped(self.stats.skipped_dupe);
            return Next::Ignore;
        }
        Next::Consider(trigger)
    }

    /// The time since the start, for the log: `seconds` with three decimals.
    pub fn ts(seconds: &str) -> (r: String)
        ensures
            r@ == "["@ + text::right_aligned(seconds@, 8) + "s]"@,
    {
        let mut r: String = "[".to_owned();
        r.push_str(text::pad_left(seconds, 8).as_str());
        r.push_str("s]");
        r
    }

    /// How the restore map is brought to disk; none where there is no map.
    pub fn save_plan(&self) -> (r: Option<SavePlan>)
        ensures
            match self@.map {
                None => r is None,
                Some(es) => match r {
                    Some(SavePlan::RemoveFile) => es.len() == 0,
                    Some(SavePlan::Write(t)) => es.len() > 0 && t@
                        == crate::restoremap::serialized(es),
                    None => false,
                },
            },
    {
        match &self.map {
            Some(map) => Some(map.save()),
            None => None,
        }
    }

    /// The sweep at the start begins.
    pub fn begin_startup_sweep(&mut self)
        ensures
            final(self)@ == startup_begun(old(self)@),
    {
        self.sweep_kind = SweepKind::Startup;
    }

    /// The sweep after a restart of the shell begins.
    pub fn begin_resweep(&mut self)
        ensures
            final(self)@ == resweep_begun(old(self)@),
    {
        self.stats.shell_restarts = bumped(self.stats.shell_restarts);
        self.sweep_kind = SweepKind::Resweep;
    }

    /// A sweep has come to a window, which is then to be considered.
    pub fn sweep_window(&mut self, key: usize)
        ensures
            final(self)@ == swept(old(self)@, key),
    {
        self.baseline.insert(key);
    }

    /// The sweep at the start is done; gives the line about it.
    pub fn end_startup_sweep(&mut self) -> (line: String)
        ensures
            final(self)@ == startup_ended(old(self)@),
            line@
                == "startup sweep (task 13): pre-existing windows rewritten="@ + num::decimal(
                old(self).stats.startup_sweep_rewritten as nat,
            ) + " already-marked="@ + num::decimal(old(self).stats.startup_sweep_marked as nat)
                + " baseline-top-level="@ + num::decimal(old(self)@.baseline.len()),
    {
        self.sweep_kind = SweepKind::Idle;
        self.baseline_count = self.baseline.len() as u64;
        let mut line: String =
            "startup sweep (task 13): pre-existing windows rewritten=".to_owned();
        line.push_str(num::decimal_text(self.stats.startup_sweep_rewritten).as_str());
        line.push_str(" already-marked=");
        line.push_str(num::decimal_text(self.stats.startup_sweep_marked).as_str());
        line.push_str(" baseline-top-level=");
        line.push_str(num::decimal_text(self.baseline_count).as_str());
        line
    }

    /// The sweep after a restart of the shell is done; gives the line about it.
    pub fn end_resweep(&mut self) -> (line: String)
        ensures
            final(self)@ == resweep_ended(old(self)@),
            line@ == "resweep (task 20): shell-restart re-sweep rewritten="@ + num::decimal(
                old(self).stats.resweep_rewritten as nat,
            ) + " already-marked="@ + num::decimal(old(self).stats.resweep_marked as nat),
    {
        self.sweep_kind = SweepKind::Idle;
        let mut line: String = "resweep (task 20): shell-restart re-sweep rewritten=".to_owned();
        line.push_str(num::decimal_text(self.stats.resweep_rewritten).as_str());
        line.push_str(" already-marked=");
        line.push_str(num::decimal_text(self.stats.resweep_marked).as_str());
        line
    }

    /// The windows whose markers are to be checked again: all that are done with,
    /// each once, in any order.
    pub fn reverify_handled(&self) -> (keys: Vec<usize>)
        ensures
            keys@.to_set() == self@.handled,
            keys@.no_duplicates(),
    {
        let mut keys: Vec<usize> = Vec::new();
        let iter = self.handled.iter();
        let ghost all = vstd::std_specs::iter::IteratorSpec::remaining(&iter);
        let ghost ks = all.unref();
        for k in it: iter
            invariant
                it.seq() == all,
                ks == all.unref(),
                keys@ == ks.take(it.index()),
        {
            keys.push(*k);
            assert(ks.take(it.index() + 1) =~= ks.take(it.index()).push(*k));
        }
        proof {
            assert(keys@ =~= ks);
            assert forall|i: int, j: int| 0 <= i < ks.len() && 0 <= j < ks.len() && i != j implies
                ks[i] != ks[j] by {
                assert(all[i] != all[j]);
            }
        }
        keys
    }
}

} // verus!
