//! A run of the watcher from its start to its end, as far as the order of things
//! goes: what is done next, and what follows when that fails.
//!
//! The session says what is to be done, is told what came of it, and says what is
//! printed, what goes to the log file and what is done then. Hooks that were set are
//! removed before the session ends, and only a session that ends in good order
//! clears the record of the circuit breaker.

use vstd::prelude::*;

use crate::appid;
use crate::autostart::UninstallOutcome;
use crate::pump;
use crate::pump::Pump;
use crate::pump::Timer;
use crate::pump::Turn;
use crate::text;
use crate::watchlog;
use crate::winevent;
use crate::winevent::WatchOptions;
use crate::winevent::WatchStrategy;

verus! {

/// What a session waits for.
#[derive(Clone, Copy, PartialEq, Eq, Structural)]
pub enum Stage {
    /// The command that starts with the session to be removed.
    Breaker,
    /// COM.
    Com,
    /// The right to write the restore map.
    Mutex,
    /// The restore map.
    RestoreMap,
    /// The hooks.
    Hooks,
    /// The sweep at the start.
    Sweep,
    /// The process of the shell at the start.
    Baseline,
    /// The beginning of a turn.
    Turn,
    /// The end of a wait.
    Wait,
    /// The process of the shell.
    Shell,
    /// The sweep after a restart of the shell.
    Resweep,
    /// The check of all markers.
    Reverify,
    /// The sign of life.
    Beat,
    /// The removal of the hooks.
    Unhook,
    /// The scan at the end.
    Report,
    /// The record of the circuit breaker to be cleared.
    Clean,
    /// Nothing: it has ended.
    Done,
}

/// What a session is told.
pub enum SessionEvent {
    AutostartRemoved(Result<UninstallOutcome, String>),
    ComReady(Result<(), String>),
    MutexHeld(Result<(), String>),
    MapLoaded(Result<(), String>),
    /// Whether the hook was set.
    HookSet(bool),
    Swept(Result<(), String>),
    ShellSeen(Option<u32>),
    /// A turn begins; whether a stop was requested.
    Tick(bool),
    Waited,
    Reverified,
    Beaten,
    /// How many hooks could not be removed.
    Unhooked(usize),
    Reported,
    Cleaned,
}

/// What is to be done next.
pub enum SessionAction {
    /// Nothing: the session was told something that it did not wait for.
    Stay,
    /// Remove the command that starts with the session.
    RemoveAutostart,
    InitCom,
    AcquireMutex,
    LoadMap,
    /// Set the hook for an event.
    SetHook(u32),
    StartupSweep,
    ReadShell,
    /// Look at the clock and whether a stop is requested.
    Check,
    /// Wait for messages, for at most so many milliseconds.
    Wait(u32),
    Resweep,
    Reverify,
    Heartbeat,
    RemoveHooks,
    FinalScan,
    EndClean,
    /// End with this result.
    Finish(Result<(), String>),
}

/// An answer of a session.
pub struct SessionReply {
    /// Lines for standard output.
    pub out: Vec<String>,
    /// Lines for standard error.
    pub err: Vec<String>,
    /// Messages for the log file.
    pub log: Vec<String>,
    pub action: SessionAction,
}

/// A session.
pub struct Session {
    pub opts: WatchOptions,
    /// Whether there is a log file.
    pub logging: bool,
    /// The shared id; empty on the suffix line.
    pub group_value: String,
    pub stage: Stage,
    /// How many hooks are set.
    pub hooks: u8,
    /// Why the session ends early, where it does.
    pub error: Option<String>,
    /// Whether hooks that cannot be removed are complained about.
    pub warn: bool,
    /// When the pump began.
    pub base: u128,
    pub pump: Pump,
}

// ---------------------------------------------------------------------------
// Models
// ---------------------------------------------------------------------------

/// A session, as a value.
#[verifier::ext_equal]
pub struct SessionView {
    pub opts: WatchOptions,
    pub logging: bool,
    pub group_value: Seq<char>,
    pub stage: Stage,
    pub hooks: u8,
    pub error: Option<Seq<char>>,
    pub warn: bool,
    pub base: u128,
    pub pump: Pump,
}

/// What is to be done next, as a value.
#[verifier::ext_equal]
pub enum SessionActionView {
    Stay,
    RemoveAutostart,
    InitCom,
    AcquireMutex,
    LoadMap,
    SetHook(u32),
    StartupSweep,
    ReadShell,
    Check,
    Wait(u32),
    Resweep,
    Reverify,
    Heartbeat,
    RemoveHooks,
    FinalScan,
    EndClean,
    Finish(Option<Seq<char>>),
}

/// An answer, as a value.
#[verifier::ext_equal]
pub struct SessionReplyView {
    pub out: Seq<Seq<char>>,
    pub err: Seq<Seq<char>>,
    pub log: Seq<Seq<char>>,
    pub action: SessionActionView,
}

impl View for Session {
    type V = SessionView;

    open spec fn view(&self) -> SessionView {
        SessionView {
            opts: self.opts,
            logging: self.logging,
            group_value: self.group_value@,
            stage: self.stage,
            hooks: self.hooks,
            error: text::opt_text(self.error),
            warn: self.warn,
            base: self.base,
            pump: self.pump,
        }
    }
}

impl View for SessionAction {
    type V = SessionActionView;

    open spec fn view(&self) -> SessionActionView {
        match self {
            SessionAction::Stay => SessionActionView::Stay,
            SessionAction::RemoveAutostart => SessionActionView::RemoveAutostart,
            SessionAction::InitCom => SessionActionView::InitCom,
            SessionAction::AcquireMutex => SessionActionView::AcquireMutex,
            SessionAction::LoadMap => SessionActionView::LoadMap,
            SessionAction::SetHook(e) => SessionActionView::SetHook(*e),
            SessionAction::StartupSweep => SessionActionView::StartupSweep,
            SessionAction::ReadShell => SessionActionView::ReadShell,
            SessionAction::Check => SessionActionView::Check,
            SessionAction::Wait(ms) => SessionActionView::Wait(*ms),
            SessionAction::Resweep => SessionActionView::Resweep,
            SessionAction::Reverify => SessionActionView::Reverify,
            SessionAction::Heartbeat => SessionActionView::Heartbeat,
            SessionAction::RemoveHooks => SessionActionView::RemoveHooks,
            SessionAction::FinalScan => SessionActionView::FinalScan,
            SessionAction::EndClean => SessionActionView::EndClean,
            SessionAction::Finish(r) => SessionActionView::Finish(text::error_of(*r)),
        }
    }
}

impl View for SessionReply {
    type V = SessionReplyView;

    open spec fn view(&self) -> SessionReplyView {
        SessionReplyView {
            out: text::texts(self.out@),
            err: text::texts(self.err@),
            log: text::texts(self.log@),
            action: self.action@,
        }
    }
}

/// The event whose hook is set after `n` others.
pub open spec fn hook_event(n: u8) -> u32 {
    if n == 0 {
        winevent::EVENT_OBJECT_CREATE
    } else if n == 1 {
        winevent::EVENT_OBJECT_SHOW
    } else if n == 2 {
        winevent::EVENT_OBJECT_NAMECHANGE
    } else {
        winevent::EVENT_OBJECT_DESTROY
    }
}

/// An answer without a word.
pub open spec fn silently(action: SessionActionView) -> SessionReplyView {
    SessionReplyView { out: Seq::empty(), err: Seq::empty(), log: Seq::empty(), action }
}

/// The session goes on to a stage without a word.
pub open spec fn goes_to(s: SessionView, stage: Stage, action: SessionActionView) -> (
    SessionView,
    SessionReplyView,
) {
    (SessionView { stage, ..s }, silently(action))
}

/// The session ends with an error before any hook is set.
pub open spec fn gives_up(s: SessionView, e: Seq<char>) -> (SessionView, SessionReplyView) {
    goes_to(s, Stage::Done, SessionActionView::Finish(Some(e)))
}

/// The name of the group, which may be missing.
pub open spec fn group_given(opts: WatchOptions) -> Seq<char> {
    match opts.group_name {
        Some(n) => n@,
        None => Seq::empty(),
    }
}

/// The time since the pump began.
pub open spec fn since(s: SessionView, now: u128) -> u128 {
    if now >= s.base {
        (now - s.base) as u128
    } else {
        0
    }
}

/// Between two waits, behind the check of all markers.
pub open spec fn after_reverify(s: SessionView, t: u128) -> (SessionView, SessionReplyView) {
    if pump::is_due(s.pump.health_beat, t) {
        goes_to(
            SessionView {
                pump: Pump { health_beat: Timer { last: t, ..s.pump.health_beat }, ..s.pump },
                ..s
            },
            Stage::Beat,
            SessionActionView::Heartbeat,
        )
    } else {
        goes_to(s, Stage::Turn, SessionActionView::Check)
    }
}

/// Between two waits, behind the look at the shell.
pub open spec fn after_shell(s: SessionView, t: u128) -> (SessionView, SessionReplyView) {
    if pump::is_due(s.pump.reassert_poll, t) {
        goes_to(
            SessionView {
                pump: Pump { reassert_poll: Timer { last: t, ..s.pump.reassert_poll }, ..s.pump },
                ..s
            },
            Stage::Reverify,
            SessionActionView::Reverify,
        )
    } else {
        after_reverify(s, t)
    }
}

/// Between two waits.
pub open spec fn after_wait(s: SessionView, t: u128) -> (SessionView, SessionReplyView) {
    if pump::is_due(s.pump.shell_poll, t) {
        goes_to(
            SessionView {
                pump: Pump { shell_poll: Timer { last: t, ..s.pump.shell_poll }, ..s.pump },
                ..s
            },
            Stage::Shell,
            SessionActionView::ReadShell,
        )
    } else {
        after_shell(s, t)
    }
}

/// A session with what is known of the shell now.
pub open spec fn shell_known(s: SessionView, current: Option<u32>) -> SessionView {
    SessionView {
        pump: Pump {
            shell_pid: if current is Some {
                current
            } else {
                s.pump.shell_pid
            },
            ..s.pump
        },
        ..s
    }
}

/// What is said of the restart of the shell.
pub open spec fn restart_reply(a: u32, b: u32) -> SessionReplyView {
    SessionReplyView {
        out: seq![watchlog::restart_text(a, b)],
        err: Seq::empty(),
        log: seq![watchlog::restart_entry(a, b)],
        action: SessionActionView::Resweep,
    }
}

/// So many complaints about hooks that cannot be removed.
pub open spec fn complaints(n: nat) -> Seq<Seq<char>> {
    Seq::new(n, |i: int| "watch: warning: UnhookWinEvent failed"@)
}

/// What follows from what a session is told.
pub open spec fn advanced(s: SessionView, event: SessionEvent, now: u128) -> (
    SessionView,
    SessionReplyView,
) {
    match (s.stage, event) {
        (Stage::Breaker, SessionEvent::AutostartRemoved(r)) => (
            SessionView { stage: Stage::Com, ..s },
            SessionReplyView {
                out: Seq::empty(),
                err: seq![watchlog::outcome_text(r)],
                log: seq![
                    watchlog::start_text(s.opts),
                    "circuit breaker tripped: autostart uninstalled"@,
                ],
                action: SessionActionView::InitCom,
            },
        ),
        (Stage::Com, SessionEvent::ComReady(r)) => match r {
            Err(e) => gives_up(s, e@),
            Ok(()) => match s.opts.strategy {
                WatchStrategy::Group => goes_to(
                    s,
                    Stage::Mutex,
                    SessionActionView::AcquireMutex,
                ),
                WatchStrategy::Ungroup => goes_to(
                    s,
                    Stage::Hooks,
                    SessionActionView::SetHook(hook_event(0)),
                ),
            },
        },
        (Stage::Mutex, SessionEvent::MutexHeld(r)) => match r {
            Err(e) => gives_up(s, e@),
            Ok(()) => if appid::group_name(group_given(s.opts)) {
                goes_to(
                    SessionView {
                        group_value: appid::group_value(group_given(s.opts)),
                        ..s
                    },
                    Stage::RestoreMap,
                    SessionActionView::LoadMap,
                )
            } else {
                gives_up(s, appid::group_name_error(group_given(s.opts)))
            },
        },
        (Stage::RestoreMap, SessionEvent::MapLoaded(r)) => match r {
            Err(e) => gives_up(s, e@),
            Ok(()) => goes_to(s, Stage::Hooks, SessionActionView::SetHook(hook_event(0))),
        },
        (Stage::Hooks, SessionEvent::HookSet(set)) => if !set {
            goes_to(
                SessionView {
                    error: Some(
                        "watch: SetWinEventHook failed for event "@ + watchlog::event_code(
                            hook_event(s.hooks),
                        )->0,
                    ),
                    warn: false,
                    ..s
                },
                Stage::Unhook,
                SessionActionView::RemoveHooks,
            )
        } else if s.hooks < 3 {
            goes_to(
                SessionView { hooks: (s.hooks + 1) as u8, ..s },
                Stage::Hooks,
                SessionActionView::SetHook(hook_event((s.hooks + 1) as u8)),
            )
        } else {
            (
                SessionView { hooks: 4, stage: Stage::Sweep, ..s },
                SessionReplyView {
                    out: watchlog::start_lines(s.opts, s.logging, s.group_value),
                    err: Seq::empty(),
                    log: Seq::empty(),
                    action: SessionActionView::StartupSweep,
                },
            )
        },
        (Stage::Sweep, SessionEvent::Swept(r)) => match r {
            Err(e) => goes_to(
                SessionView {
                    error: Some("watch: startup sweep failed: "@ + e@),
                    warn: true,
                    ..s
                },
                Stage::Unhook,
                SessionActionView::RemoveHooks,
            ),
            Ok(()) => (
                SessionView { stage: Stage::Baseline, ..s },
                SessionReplyView {
                    out: Seq::empty(),
                    err: Seq::empty(),
                    log: seq!["startup sweep done"@],
                    action: SessionActionView::ReadShell,
                },
            ),
        },
        (Stage::Baseline, SessionEvent::ShellSeen(pid)) => goes_to(
            SessionView {
                base: now,
                pump: pump::fresh(s.opts.duration_secs, s.opts.stoppable, pid),
                ..s
            },
            Stage::Turn,
            SessionActionView::Check,
        ),
        (Stage::Turn, SessionEvent::Tick(stop)) => match pump::turned(s.pump, since(s, now), stop) {
            Turn::Stopped => (
                SessionView { stage: Stage::Unhook, warn: true, ..s },
                SessionReplyView {
                    out: seq![
                        Seq::empty(),
                        "watch: stop requested (task 14) — removing hooks and running the final scan"@,
                    ],
                    err: Seq::empty(),
                    log: Seq::empty(),
                    action: SessionActionView::RemoveHooks,
                },
            ),
            Turn::TimeUp => goes_to(
                SessionView { warn: true, ..s },
                Stage::Unhook,
                SessionActionView::RemoveHooks,
            ),
            Turn::Wait(ms) => goes_to(s, Stage::Wait, SessionActionView::Wait(ms)),
        },
        (Stage::Wait, SessionEvent::Waited) => after_wait(s, since(s, now)),
        (Stage::Shell, SessionEvent::ShellSeen(current)) => {
            let n = shell_known(s, current);
            match (s.pump.shell_pid, current) {
                (Some(a), Some(b)) if a != b => (
                    SessionView { stage: Stage::Resweep, ..n },
                    restart_reply(a, b),
                ),
                _ => after_shell(n, since(s, now)),
            }
        },
        (Stage::Resweep, SessionEvent::Swept(_)) => {
            let (n, r) = after_shell(s, since(s, now));
            (n, SessionReplyView { log: seq!["resweep done"@], ..r })
        },
        (Stage::Reverify, SessionEvent::Reverified) => after_reverify(s, since(s, now)),
        (Stage::Beat, SessionEvent::Beaten) => goes_to(s, Stage::Turn, SessionActionView::Check),
        (Stage::Unhook, SessionEvent::Unhooked(failures)) => {
            let n = SessionView { hooks: 0, ..s };
            let err = if s.warn {
                complaints(failures as nat)
            } else {
                Seq::empty()
            };
            match s.error {
                Some(e) => (
                    SessionView { stage: Stage::Done, ..n },
                    SessionReplyView {
                        out: Seq::empty(),
                        err,
                        log: Seq::empty(),
                        action: SessionActionView::Finish(Some(e)),
                    },
                ),
                None => (
                    SessionView { stage: Stage::Report, ..n },
                    SessionReplyView {
                        out: Seq::empty(),
                        err,
                        log: Seq::empty(),
                        action: SessionActionView::FinalScan,
                    },
                ),
            }
        },
        (Stage::Report, SessionEvent::Reported) => goes_to(
            s,
            Stage::Clean,
            SessionActionView::EndClean,
        ),
        (Stage::Clean, SessionEvent::Cleaned) => (
            SessionView { stage: Stage::Done, ..s },
            SessionReplyView {
                out: Seq::empty(),
                err: Seq::empty(),
                log: seq!["watch stop (graceful)"@],
                action: SessionActionView::Finish(None),
            },
        ),
        _ => (s, silently(SessionActionView::Stay)),
    }
}

// ---------------------------------------------------------------------------
// Laws
// ---------------------------------------------------------------------------

/// What holds of a session at all times: hooks are set from the stage that sets
/// them on, all four from the first sweep on, and none when it reports or has
/// ended; a reason to end early is there only while hooks are removed and after;
/// the group line has its shared id from the map on.
pub open spec fn consistent(s: SessionView) -> bool {
    &&& match s.stage {
        Stage::Hooks => s.hooks < 4,
        Stage::Breaker | Stage::Com | Stage::Mutex | Stage::RestoreMap | Stage::Report | Stage::Clean
        | Stage::Done => s.hooks == 0,
        Stage::Unhook => s.hooks <= 4,
        _ => s.hooks == 4,
    }
    &&& s.error is Some ==> s.stage is Unhook || s.stage is Done
    &&& match s.stage {
        Stage::Breaker | Stage::Com | Stage::Mutex | Stage::Done => true,
        _ => s.opts.strategy is Group ==> appid::is_group(s.group_value),
    }
}

/// A session stays consistent, whatever it is told.
pub proof fn law_stays_consistent(s: SessionView, event: SessionEvent, now: u128)
    requires
        consistent(s),
    ensures
        consistent(advanced(s, event, now).0),
{
    if appid::group_name(group_given(s.opts)) {
        appid::law_group_value(group_given(s.opts));
    }
}

/// No hook outlives the session: when it ends, none is set.
pub proof fn law_hooks_are_removed(s: SessionView, event: SessionEvent, now: u128)
    requires
        consistent(s),
    ensures
        advanced(s, event, now).1.action is Finish ==> advanced(s, event, now).0.hooks == 0,
{
}

/// Windows are swept only with all four hooks set, so that no window that comes up
/// meanwhile is missed by both.
pub proof fn law_sweep_follows_hooks(s: SessionView, event: SessionEvent, now: u128)
    requires
        consistent(s),
    ensures
        advanced(s, event, now).1.action is StartupSweep || advanced(
            s,
            event,
            now,
        ).1.action is Resweep ==> advanced(s, event, now).0.hooks == 4,
{
}

/// The record of the circuit breaker is cleared only after the report at the end,
/// and a session ends well only after that: one that ends early leaves its record
/// behind.
pub proof fn law_only_a_good_end_is_clean(s: SessionView, event: SessionEvent, now: u128)
    ensures
        advanced(s, event, now).1.action is EndClean ==> s.stage is Report,
        advanced(s, event, now).1.action matches SessionActionView::Finish(e) ==> (e is None
            ==> s.stage is Clean),
{
}

/// The restore map is read on the group line only, and only once the right to write
/// it is held.
pub proof fn law_map_follows_mutex(s: SessionView, event: SessionEvent, now: u128)
    ensures
        advanced(s, event, now).1.action is LoadMap ==> s.stage is Mutex && (event
            matches SessionEvent::MutexHeld(r) && r is Ok),
        advanced(s, event, now).1.action is AcquireMutex ==> s.opts.strategy is Group,
{
}

/// A request to stop is met at the next turn, whatever the time: the hooks are
/// removed, and without an error on the way the session ends well.
pub proof fn law_stop_request_is_met(s: SessionView, now: u128, failures: usize)
    requires
        s.stage is Turn,
        s.error is None,
        s.pump.stoppable,
    ensures
        ({
            let (a, ra) = advanced(s, SessionEvent::Tick(true), now);
            let (b, rb) = advanced(a, SessionEvent::Unhooked(failures), now);
            let (c, rc) = advanced(b, SessionEvent::Reported, now);
            let (d, rd) = advanced(c, SessionEvent::Cleaned, now);
            &&& ra.action is RemoveHooks
            &&& rb.action is FinalScan
            &&& rc.action is EndClean
            &&& rd.action == SessionActionView::Finish(None)
        }),
{
}

/// A restart of the shell leads to a sweep over all windows, and nothing else that is
/// seen of the shell does. The shell is then known by its new process.
pub proof fn law_restart_leads_to_sweep(s: SessionView, current: Option<u32>, now: u128)
    requires
        s.stage is Shell,
    ensures
        advanced(s, SessionEvent::ShellSeen(current), now).1.action is Resweep
            <==> pump::restarted(s.pump.shell_pid, current),
        current is Some ==> advanced(
            s,
            SessionEvent::ShellSeen(current),
            now,
        ).0.pump.shell_pid == current,
{
}

/// Markers are checked as soon as a wait ends with the check due: at once, or, where
/// the shell is looked at first, right behind that and the sweep that it may lead to.
pub proof fn law_markers_are_checked_when_due(
    s: SessionView,
    waited: u128,
    current: Option<u32>,
    seen: u128,
    swept: Result<(), String>,
    done: u128,
)
    requires
        s.stage is Wait,
        pump::is_due(s.pump.reassert_poll, since(s, waited)),
        s.base <= waited <= seen <= done,
    ensures
        ({
            let (a, ra) = advanced(s, SessionEvent::Waited, waited);
            let (b, rb) = advanced(a, SessionEvent::ShellSeen(current), seen);
            let (c, rc) = advanced(b, SessionEvent::Swept(swept), done);
            ||| ra.action is Reverify
            ||| ra.action is ReadShell && rb.action is Reverify
            ||| ra.action is ReadShell && rb.action is Resweep && rc.action is Reverify
        }),
{
}

/// A session starts step by step, and each step follows from the one before: COM, on the group
/// line the right to write the restore map and the map, and the hooks. It goes on without a
/// word, and an error on the way ends it with that error.
pub proof fn law_start_is_step_by_step(s: SessionView, e: String, now: u128)
    requires
        s.stage is Com || s.stage is Mutex || s.stage is RestoreMap,
    ensures
        ({
            let failed = match s.stage {
                Stage::Com => SessionEvent::ComReady(Err(e)),
                Stage::Mutex => SessionEvent::MutexHeld(Err(e)),
                _ => SessionEvent::MapLoaded(Err(e)),
            };
            let worked = match s.stage {
                Stage::Com => SessionEvent::ComReady(Ok(())),
                Stage::Mutex => SessionEvent::MutexHeld(Ok(())),
                _ => SessionEvent::MapLoaded(Ok(())),
            };
            let name = match s.opts.group_name {
                Some(n) => n@,
                None => Seq::empty(),
            };
            let (n, r) = advanced(s, worked, now);
            &&& advanced(s, failed, now) == (
                SessionView { stage: Stage::Done, ..s },
                SessionReplyView {
                    out: Seq::empty(),
                    err: Seq::empty(),
                    log: Seq::empty(),
                    action: SessionActionView::Finish(Some(e@)),
                },
            )
            &&& r.out.len() == 0 && r.err.len() == 0 && r.log.len() == 0
            &&& s.stage is Com && s.opts.strategy is Group ==> r.action is AcquireMutex && n == (
            SessionView { stage: Stage::Mutex, ..s })
            &&& s.stage is Mutex && appid::group_name(name) ==> r.action is LoadMap && n == (
            SessionView { stage: Stage::RestoreMap, group_value: appid::group_value(name), ..s })
            &&& s.stage is Mutex && !appid::group_name(name) ==> r.action
                == SessionActionView::Finish(Some(appid::group_name_error(name))) && n == (
            SessionView { stage: Stage::Done, ..s })
            &&& (s.stage is Com && s.opts.strategy is Ungroup) || s.stage is RestoreMap
                ==> r.action == SessionActionView::SetHook(0x8000) && n == (SessionView {
                stage: Stage::Hooks,
                ..s
            })
        }),
{
}

/// The hooks are set one after the other, for windows that are created, that are shown, that
/// are renamed and that are destroyed, and the sweep follows the last. A hook that cannot be
/// set is the end: the others are removed, and the error names its event.
pub proof fn law_hooks_are_set_in_order(s: SessionView, now: u128)
    requires
        s.stage is Hooks,
    ensures
        ({
            let (n, r) = advanced(s, SessionEvent::HookSet(true), now);
            let (f, q) = advanced(s, SessionEvent::HookSet(false), now);
            let failed = |code: Seq<char>| (SessionView {
                stage: Stage::Unhook,
                error: Some("watch: SetWinEventHook failed for event "@ + code),
                warn: false,
                ..s
            });
            &&& r.err.len() == 0 && r.log.len() == 0
            &&& s.hooks == 0 ==> r.action == SessionActionView::SetHook(0x8002)
            &&& s.hooks == 1 ==> r.action == SessionActionView::SetHook(0x800c)
            &&& s.hooks == 2 ==> r.action == SessionActionView::SetHook(0x8001)
            &&& s.hooks < 3 ==> r.out.len() == 0 && n == (SessionView {
                hooks: (s.hooks + 1) as u8,
                ..s
            })
            &&& s.hooks == 3 ==> r.action is StartupSweep && r.out == watchlog::start_lines(
                s.opts,
                s.logging,
                s.group_value,
            ) && n == (SessionView { hooks: 4, stage: Stage::Sweep, ..s })
            &&& q.action is RemoveHooks && q.out.len() == 0 && q.err.len() == 0 && q.log.len() == 0
            &&& s.hooks == 0 ==> f == failed("0x8000"@)
            &&& s.hooks == 1 ==> f == failed("0x8002"@)
            &&& s.hooks == 2 ==> f == failed("0x800c"@)
            &&& s.hooks == 3 ==> f == failed("0x8001"@)
        }),
{
}

/// The sweep at the start is followed by a look at the shell, and that by the first turn of a
/// new pump. A sweep that fails ends the session, with that error.
pub proof fn law_sweep_leads_to_the_pump(s: SessionView, e: String, pid: Option<u32>, now: u128)
    ensures
        s.stage is Sweep ==> advanced(s, SessionEvent::Swept(Ok(())), now) == (
            SessionView { stage: Stage::Baseline, ..s },
            SessionReplyView {
                out: Seq::empty(),
                err: Seq::empty(),
                log: seq!["startup sweep done"@],
                action: SessionActionView::ReadShell,
            },
        ),
        s.stage is Sweep ==> ({
            let (n, r) = advanced(s, SessionEvent::Swept(Err(e)), now);
            &&& r.action is RemoveHooks && r.out.len() == 0 && r.err.len() == 0 && r.log.len() == 0
            &&& n == (SessionView {
                stage: Stage::Unhook,
                error: Some("watch: startup sweep failed: "@ + e@),
                warn: true,
                ..s
            })
        }),
        s.stage is Baseline ==> ({
            let (n, r) = advanced(s, SessionEvent::ShellSeen(pid), now);
            &&& r.action is Check && r.out.len() == 0 && r.err.len() == 0 && r.log.len() == 0
            &&& n == (SessionView {
                stage: Stage::Turn,
                base: now,
                pump: pump::fresh(s.opts.duration_secs, s.opts.stoppable, pid),
                ..s
            })
        }),
{
}

/// A turn does what the pump says, by the time since it began: it waits, or the hooks are
/// removed.
pub proof fn law_turns_follow_the_pump(s: SessionView, stop: bool, now: u128)
    requires
        s.stage is Turn,
    ensures
        ({
            let t: u128 = if now >= s.base {
                (now - s.base) as u128
            } else {
                0
            };
            let (n, r) = advanced(s, SessionEvent::Tick(stop), now);
            &&& r.err.len() == 0 && r.log.len() == 0
            &&& match pump::turned(s.pump, t, stop) {
                Turn::Wait(ms) => r.action == SessionActionView::Wait(ms) && r.out.len() == 0 && n
                    == (SessionView { stage: Stage::Wait, ..s }),
                Turn::TimeUp => r.action is RemoveHooks && r.out.len() == 0 && n == (SessionView {
                    stage: Stage::Unhook,
                    warn: true,
                    ..s
                }),
                Turn::Stopped => r.action is RemoveHooks && r.out == seq![
                    Seq::<char>::empty(),
                    "watch: stop requested (task 14) — removing hooks and running the final scan"@,
                ] && n == (SessionView { stage: Stage::Unhook, warn: true, ..s }),
            }
        }),
{
}

/// The stages between two waits, in their order.
pub open spec fn between_waits(stage: Stage) -> int {
    match stage {
        Stage::Wait => 0,
        Stage::Shell => 1,
        Stage::Resweep => 1,
        Stage::Reverify => 2,
        _ => 3,
    }
}

/// Between two waits everything that is due is done once, in order: the look at the shell, the
/// check of all markers and the sign of life; its timer counts from now on again. What is not
/// due is passed over, and when nothing is left the next turn begins.
pub proof fn law_what_is_due_is_done(s: SessionView, event: SessionEvent, now: u128)
    requires
        match s.stage {
            Stage::Wait => event is Waited,
            Stage::Shell => event matches SessionEvent::ShellSeen(current) && !(s.pump.shell_pid is Some
                && current is Some && s.pump.shell_pid != current),
            Stage::Resweep => event is Swept,
            Stage::Reverify => event is Reverified,
            Stage::Beat => event is Beaten,
            _ => false,
        },
    ensures
        ({
            let t: u128 = if now >= s.base {
                (now - s.base) as u128
            } else {
                0
            };
            let at = between_waits(s.stage);
            let p = match event {
                SessionEvent::ShellSeen(Some(pid)) => Pump { shell_pid: Some(pid), ..s.pump },
                _ => s.pump,
            };
            let shell = at < 1 && pump::is_due(s.pump.shell_poll, t);
            let markers = at < 2 && pump::is_due(s.pump.reassert_poll, t);
            let beat = at < 3 && pump::is_due(s.pump.health_beat, t);
            let (n, r) = advanced(s, event, now);
            &&& r.out.len() == 0 && r.err.len() == 0
            &&& r.log == (if s.stage is Resweep {
                seq!["resweep done"@]
            } else {
                Seq::empty()
            })
            &&& shell ==> r.action is ReadShell && n == (SessionView {
                stage: Stage::Shell,
                pump: Pump { shell_poll: Timer { last: t, ..p.shell_poll }, ..p },
                ..s
            })
            &&& !shell && markers ==> r.action is Reverify && n == (SessionView {
                stage: Stage::Reverify,
                pump: Pump { reassert_poll: Timer { last: t, ..p.reassert_poll }, ..p },
                ..s
            })
            &&& !shell && !markers && beat ==> r.action is Heartbeat && n == (SessionView {
                stage: Stage::Beat,
                pump: Pump { health_beat: Timer { last: t, ..p.health_beat }, ..p },
                ..s
            })
            &&& !shell && !markers && !beat ==> r.action is Check && n == (SessionView {
                stage: Stage::Turn,
                pump: p,
                ..s
            })
        }),
{
}

/// A restart of the shell is told, on the screen and in the log file, with the process before
/// and the process now, and all windows are swept again.
pub proof fn law_restart_is_told(s: SessionView, before: u32, current: u32, now: u128)
    requires
        s.stage is Shell,
        s.pump.shell_pid == Some(before),
        before != current,
    ensures
        advanced(s, SessionEvent::ShellSeen(Some(current)), now) == (
            SessionView {
                stage: Stage::Resweep,
                pump: Pump { shell_pid: Some(current), ..s.pump },
                ..s
            },
            SessionReplyView {
                out: seq![watchlog::restart_text(before, current)],
                err: Seq::empty(),
                log: seq![watchlog::restart_entry(before, current)],
                action: SessionActionView::Resweep,
            },
        ),
{
}

/// When the hooks are removed the session reports, clears the record of the circuit breaker
/// and ends; with a reason to end early it ends at once, with that. There is one complaint for
/// each hook that could not be removed, unless it was never set up.
pub proof fn law_end_is_step_by_step(s: SessionView, failures: usize, now: u128)
    ensures
        s.stage is Unhook ==> ({
            let (n, r) = advanced(s, SessionEvent::Unhooked(failures), now);
            &&& r.out.len() == 0 && r.log.len() == 0
            &&& r.err.len() == (if s.warn {
                failures as nat
            } else {
                0
            })
            &&& forall|i: int|
                0 <= i < r.err.len() ==> #[trigger] r.err[i]
                    == "watch: warning: UnhookWinEvent failed"@
            &&& s.error is None ==> r.action is FinalScan && n == (SessionView {
                stage: Stage::Report,
                hooks: 0,
                ..s
            })
            &&& s.error is Some ==> r.action == SessionActionView::Finish(s.error) && n == (
            SessionView { stage: Stage::Done, hooks: 0, ..s })
        }),
        s.stage is Report ==> ({
            let (n, r) = advanced(s, SessionEvent::Reported, now);
            &&& r.out.len() == 0 && r.err.len() == 0 && r.log.len() == 0
            &&& r.action is EndClean && n == (SessionView { stage: Stage::Clean, ..s })
        }),
        s.stage is Clean ==> advanced(s, SessionEvent::Cleaned, now) == (
            SessionView { stage: Stage::Done, ..s },
            SessionReplyView {
                out: Seq::empty(),
                err: Seq::empty(),
                log: seq!["watch stop (graceful)"@],
                action: SessionActionView::Finish(None),
            },
        ),
{
}

/// When the command that starts with the session is removed, what came of it is told, the log
/// file says that the breaker has tripped, and the session goes on.
pub proof fn law_breaker_is_told(s: SessionView, r: Result<UninstallOutcome, String>, now: u128)
    requires
        s.stage is Breaker,
    ensures
        advanced(s, SessionEvent::AutostartRemoved(r), now) == (
            SessionView { stage: Stage::Com, ..s },
            SessionReplyView {
                out: Seq::empty(),
                err: seq![watchlog::outcome_text(r)],
                log: seq![
                    watchlog::start_text(s.opts),
                    "circuit breaker tripped: autostart uninstalled"@,
                ],
                action: SessionActionView::InitCom,
            },
        ),
{
}

/// What a session does not wait for changes nothing.
pub proof fn law_other_events_change_nothing(s: SessionView, event: SessionEvent, now: u128)
    requires
        match event {
            SessionEvent::AutostartRemoved(_) => s.stage !is Breaker,
            SessionEvent::ComReady(_) => s.stage !is Com,
            SessionEvent::MutexHeld(_) => s.stage !is Mutex,
            SessionEvent::MapLoaded(_) => s.stage !is RestoreMap,
            SessionEvent::HookSet(_) => s.stage !is Hooks,
            SessionEvent::Swept(_) => s.stage !is Sweep && s.stage !is Resweep,
            SessionEvent::ShellSeen(_) => s.stage !is Baseline && s.stage !is Shell,
            SessionEvent::Tick(_) => s.stage !is Turn,
            SessionEvent::Waited => s.stage !is Wait,
            SessionEvent::Reverified => s.stage !is Reverify,
            SessionEvent::Beaten => s.stage !is Beat,
            SessionEvent::Unhooked(_) => s.stage !is Unhook,
            SessionEvent::Reported => s.stage !is Report,
            SessionEvent::Cleaned => s.stage !is Clean,
        },
    ensures
        ({
            let (n, r) = advanced(s, event, now);
            &&& n == s
            &&& r.action is Stay && r.out.len() == 0 && r.err.len() == 0 && r.log.len() == 0
        }),
{
}

/// A session is taken for what its fields hold, and an answer for what it says and asks for.
pub proof fn law_session_is_its_fields(s: Session, r: SessionReply, n: u32, e: Result<(), String>)
    ensures
        s@.opts == s.opts && s@.logging == s.logging && s@.group_value == s.group_value@,
        s@.stage == s.stage && s@.hooks == s.hooks && s@.error == text::opt_text(s.error),
        s@.warn == s.warn && s@.base == s.base && s@.pump == s.pump,
        r@.out == text::texts(r.out@) && r@.err == text::texts(r.err@) && r@.log == text::texts(
            r.log@,
        ),
        r@.action == r.action@,
        SessionAction::Stay@ == SessionActionView::Stay,
        SessionAction::RemoveAutostart@ == SessionActionView::RemoveAutostart,
        SessionAction::InitCom@ == SessionActionView::InitCom,
        SessionAction::AcquireMutex@ == SessionActionView::AcquireMutex,
        SessionAction::LoadMap@ == SessionActionView::LoadMap,
        SessionAction::SetHook(n)@ == SessionActionView::SetHook(n),
        SessionAction::StartupSweep@ == SessionActionView::StartupSweep,
        SessionAction::ReadShell@ == SessionActionView::ReadShell,
        SessionAction::Check@ == SessionActionView::Check,
        SessionAction::Wait(n)@ == SessionActionView::Wait(n),
        SessionAction::Resweep@ == SessionActionView::Resweep,
        SessionAction::Reverify@ == SessionActionView::Reverify,
        SessionAction::Heartbeat@ == SessionActionView::Heartbeat,
        SessionAction::RemoveHooks@ == SessionActionView::RemoveHooks,
        SessionAction::FinalScan@ == SessionActionView::FinalScan,
        SessionAction::EndClean@ == SessionActionView::EndClean,
        SessionAction::Finish(e)@ == SessionActionView::Finish(text::error_of(e)),
{
}

// ---------------------------------------------------------------------------
// Functions
// ---------------------------------------------------------------------------

/// An answer without a word.
fn silent(action: SessionAction) -> (r: SessionReply)
    ensures
        r@ == silently(action@),
{
    SessionReply { out: text::no_lines(), err: text::no_lines(), log: text::no_lines(), action }
}

/// The event whose hook is set after `n` others.
fn event_after(n: u8) -> (r: u32)
    ensures
        r == hook_event(n),
{
    if n == 0 {
        winevent::EVENT_OBJECT_CREATE
    } else if n == 1 {
        winevent::EVENT_OBJECT_SHOW
    } else if n == 2 {
        winevent::EVENT_OBJECT_NAMECHANGE
    } else {
        winevent::EVENT_OBJECT_DESTROY
    }
}

/// So many complaints about hooks that cannot be removed.
fn complain(n: usize) -> (out: Vec<String>)
    ensures
        text::texts(out@) == complaints(n as nat),
{
    let mut out: Vec<String> = text::no_lines();
    let mut i: usize = 0;
    assert(text::texts(out@) =~= complaints(0));
    while i < n
        invariant
            i <= n,
            text::texts(out@) == complaints(i as nat),
        decreases n - i,
    {
        text::say(&mut out, "watch: warning: UnhookWinEvent failed".to_owned());
        i += 1;
        assert(text::texts(out@) =~= complaints(i as nat));
    }
    out
}

impl Session {
    /// Begins a session; `tripped` is whether the circuit breaker has tripped.
    pub fn begin(opts: WatchOptions, logging: bool, tripped: bool) -> (r: (Session, SessionReply))
        ensures
            r.0@ == (SessionView {
                opts,
                logging,
                group_value: Seq::empty(),
                stage: if tripped {
                    Stage::Breaker
                } else {
                    Stage::Com
                },
                hooks: 0,
                error: None,
                warn: false,
                base: 0,
                pump: pump::fresh(opts.duration_secs, opts.stoppable, None),
            }),
            r.1@ == (if tripped {
                SessionReplyView {
                    out: Seq::empty(),
                    err: seq![watchlog::tripped_text()],
                    log: Seq::empty(),
                    action: SessionActionView::RemoveAutostart,
                }
            } else {
                SessionReplyView {
                    out: Seq::empty(),
                    err: Seq::empty(),
                    log: seq![watchlog::start_text(opts)],
                    action: SessionActionView::InitCom,
                }
            }),
            consistent(r.0@),
    {
        let reply: SessionReply = if tripped {
            SessionReply {
                out: text::no_lines(),
                err: text::one_line(watchlog::breaker_tripped()),
                log: text::no_lines(),
                action: SessionAction::RemoveAutostart,
            }
        } else {
            SessionReply {
                out: text::no_lines(),
                err: text::no_lines(),
                log: text::one_line(watchlog::start_message(&opts)),
                action: SessionAction::InitCom,
            }
        };
        let pump: Pump = Pump::new(opts.duration_secs, opts.stoppable, None);
        let session: Session = Session {
            opts,
            logging,
            group_value: String::new(),
            stage: if tripped {
                Stage::Breaker
            } else {
                Stage::Com
            },
            hooks: 0,
            error: None,
            warn: false,
            base: 0,
            pump,
        };
        (session, reply)
    }

    /// The session goes on to a stage without a word.
    fn go_to(&mut self, stage: Stage, action: SessionAction) -> (r: SessionReply)
        ensures
            (final(self)@, r@) == goes_to(old(self)@, stage, action@),
    {
        self.stage = stage;
        silent(action)
    }

    /// The session ends with an error before any hook is set.
    fn give_up(&mut self, e: String) -> (r: SessionReply)
        ensures
            (final(self)@, r@) == gives_up(old(self)@, e@),
    {
        self.stage = Stage::Done;
        silent(SessionAction::Finish(Err(e)))
    }

    /// The time since the pump began.
    fn elapsed(&self, now: u128) -> (r: u128)
        ensures
            r == since(self@, now),
    {
        if now >= self.base {
            now - self.base
        } else {
            0
        }
    }

    /// Between two waits, behind the check of all markers.
    fn go_on_after_reverify(&mut self, t: u128) -> (r: SessionReply)
        ensures
            (final(self)@, r@) == after_reverify(old(self)@, t),
    {
        if self.pump.health_beat.due(t) {
            self.go_to(Stage::Beat, SessionAction::Heartbeat)
        } else {
            self.go_to(Stage::Turn, SessionAction::Check)
        }
    }

    /// Between two waits, behind the look at the shell.
    fn go_on_after_shell(&mut self, t: u128) -> (r: SessionReply)
        ensures
            (final(self)@, r@) == after_shell(old(self)@, t),
    {
        if self.pump.reassert_poll.due(t) {
            self.go_to(Stage::Reverify, SessionAction::Reverify)
        } else {
            self.go_on_after_reverify(t)
        }
    }

    /// Between two waits.
    fn go_on_after_wait(&mut self, t: u128) -> (r: SessionReply)
        ensures
            (final(self)@, r@) == after_wait(old(self)@, t),
    {
        if self.pump.shell_poll.due(t) {
            self.go_to(Stage::Shell, SessionAction::ReadShell)
        } else {
            self.go_on_after_shell(t)
        }
    }

    /// A hook was set, or could not be.
    fn hook_set(&mut self, set: bool) -> (r: SessionReply)
        requires
            old(self).stage is Hooks,
        ensures
            (final(self)@, r@) == advanced(old(self)@, SessionEvent::HookSet(set), 0),
    {
        if !set {
            self.error = watchlog::hook_failed(event_after(self.hooks));
            self.warn = false;
            return self.go_to(Stage::Unhook, SessionAction::RemoveHooks);
        }
        if self.hooks < 3 {
            self.hooks = self.hooks + 1;
            let event: u32 = event_after(self.hooks);
            return self.go_to(Stage::Hooks, SessionAction::SetHook(event));
        }
        self.hooks = 4;
        self.stage = Stage::Sweep;
        SessionReply {
            out: watchlog::banner(&self.opts, self.logging, self.group_value.as_str()),
            err: text::no_lines(),
            log: text::no_lines(),
            action: SessionAction::StartupSweep,
        }
    }

    /// The right to write the restore map is held, or could not be had.
    fn mutex_held(&mut self, result: Result<(), String>) -> (r: SessionReply)
        requires
            old(self).stage is Mutex,
        ensures
            (final(self)@, r@) == advanced(old(self)@, SessionEvent::MutexHeld(result), 0),
    {
        if let Err(e) = result {
            return self.give_up(e);
        }
        let name: String = match &self.opts.group_name {
            Some(n) => n.clone(),
            None => String::new(),
        };
        match appid::group_aumid(name.as_str()) {
            Ok(id) => {
                self.group_value = id;
                self.go_to(Stage::RestoreMap, SessionAction::LoadMap)
            },
            Err(e) => self.give_up(e),
        }
    }

    /// A turn begins.
    fn tick(&mut self, stop: bool, now: u128) -> (r: SessionReply)
        requires
            old(self).stage is Turn,
        ensures
            (final(self)@, r@) == advanced(old(self)@, SessionEvent::Tick(stop), now),
    {
        let t: u128 = self.elapsed(now);
        match self.pump.turn(t, stop) {
            Turn::Stopped => {
                self.stage = Stage::Unhook;
                self.warn = true;
                let mut out: Vec<String> = text::one_line(String::new());
                text::say(
                    &mut out,
                    "watch: stop requested (task 14) — removing hooks and running the final scan".to_owned(),
                );
                SessionReply {
                    out,
                    err: text::no_lines(),
                    log: text::no_lines(),
                    action: SessionAction::RemoveHooks,
                }
            },
            Turn::TimeUp => {
                self.warn = true;
                self.go_to(Stage::Unhook, SessionAction::RemoveHooks)
            },
            Turn::Wait(ms) => self.go_to(Stage::Wait, SessionAction::Wait(ms)),
        }
    }

    /// The process of the shell was looked at.
    fn shell_seen(&mut self, current: Option<u32>, now: u128) -> (r: SessionReply)
        requires
            old(self).stage is Shell,
        ensures
            (final(self)@, r@) == advanced(old(self)@, SessionEvent::ShellSeen(current), now),
    {
        let t: u128 = self.elapsed(now);
        match self.pump.shell_seen(current) {
            Some((a, b)) => {
                self.stage = Stage::Resweep;
                let (line, entry): (String, String) = watchlog::shell_restart(a, b);
                SessionReply {
                    out: text::one_line(line),
                    err: text::no_lines(),
                    log: text::one_line(entry),
                    action: SessionAction::Resweep,
                }
            },
            None => self.go_on_after_shell(t),
        }
    }

    /// The hooks were removed, but for some.
    fn unhooked(&mut self, failures: usize) -> (r: SessionReply)
        requires
            old(self).stage is Unhook,
        ensures
            (final(self)@, r@) == advanced(old(self)@, SessionEvent::Unhooked(failures), 0),
    {
        self.hooks = 0;
        let err: Vec<String> = if self.warn {
            complain(failures)
        } else {
            text::no_lines()
        };
        match &self.error {
            Some(e) => {
                let e: String = e.clone();
                self.stage = Stage::Done;
                SessionReply {
                    out: text::no_lines(),
                    err,
                    log: text::no_lines(),
                    action: SessionAction::Finish(Err(e)),
                }
            },
            None => {
                self.stage = Stage::Report;
                SessionReply { out: text::no_lines(), err, log: text::no_lines(), action: SessionAction::FinalScan }
            },
        }
    }

    /// Is told what came of what it asked for; `now` is the time in nanoseconds.
    pub fn advance(&mut self, event: SessionEvent, now: u128) -> (r: SessionReply)
        ensures
            (final(self)@, r@) == advanced(old(self)@, event, now),
    {
        match (self.stage, event) {
            (Stage::Breaker, SessionEvent::AutostartRemoved(result)) => {
                self.stage = Stage::Com;
                let mut log: Vec<String> = text::one_line(watchlog::start_message(&self.opts));
                text::say(&mut log, "circuit breaker tripped: autostart uninstalled".to_owned());
                SessionReply {
                    out: text::no_lines(),
                    err: text::one_line(watchlog::breaker_outcome(&result)),
                    log,
                    action: SessionAction::InitCom,
                }
            },
            (Stage::Com, SessionEvent::ComReady(result)) => match result {
                Err(e) => self.give_up(e),
                Ok(()) => match self.opts.strategy {
                    WatchStrategy::Group => self.go_to(Stage::Mutex, SessionAction::AcquireMutex),
                    WatchStrategy::Ungroup => self.go_to(
                        Stage::Hooks,
                        SessionAction::SetHook(event_after(0)),
                    ),
                },
            },
            (Stage::Mutex, SessionEvent::MutexHeld(result)) => self.mutex_held(result),
            (Stage::RestoreMap, SessionEvent::MapLoaded(result)) => match result {
                Err(e) => self.give_up(e),
                Ok(()) => self.go_to(Stage::Hooks, SessionAction::SetHook(event_after(0))),
            },
            (Stage::Hooks, SessionEvent::HookSet(set)) => self.hook_set(set),
            (Stage::Sweep, SessionEvent::Swept(result)) => match result {
                Err(e) => {
                    let mut w: String = "watch: startup sweep failed: ".to_owned();
                    w.push_str(e.as_str());
                    self.error = Some(w);
                    self.warn = true;
                    self.go_to(Stage::Unhook, SessionAction::RemoveHooks)
                },
                Ok(()) => {
                    self.stage = Stage::Baseline;
                    SessionReply {
                        out: text::no_lines(),
                        err: text::no_lines(),
                        log: text::one_line("startup sweep done".to_owned()),
                        action: SessionAction::ReadShell,
                    }
                },
            },
            (Stage::Baseline, SessionEvent::ShellSeen(pid)) => {
                self.base = now;
                self.pump = Pump::new(self.opts.duration_secs, self.opts.stoppable, pid);
                self.go_to(Stage::Turn, SessionAction::Check)
            },
            (Stage::Turn, SessionEvent::Tick(stop)) => self.tick(stop, now),
            (Stage::Wait, SessionEvent::Waited) => {
                let t: u128 = self.elapsed(now);
                self.go_on_after_wait(t)
            },
            (Stage::Shell, SessionEvent::ShellSeen(current)) => self.shell_seen(current, now),
            (Stage::Resweep, SessionEvent::Swept(_)) => {
                let t: u128 = self.elapsed(now);
                let r: SessionReply = self.go_on_after_shell(t);
                SessionReply {
                    out: r.out,
                    err: r.err,
                    log: text::one_line("resweep done".to_owned()),
                    action: r.action,
                }
            },
            (Stage::Reverify, SessionEvent::Reverified) => {
                let t: u128 = self.elapsed(now);
                self.go_on_after_reverify(t)
            },
            (Stage::Beat, SessionEvent::Beaten) => self.go_to(Stage::Turn, SessionAction::Check),
            (Stage::Unhook, SessionEvent::Unhooked(failures)) => self.unhooked(failures),
            (Stage::Report, SessionEvent::Reported) => self.go_to(
                Stage::Clean,
                SessionAction::EndClean,
            ),
            (Stage::Clean, SessionEvent::Cleaned) => {
                self.stage = Stage::Done;
                SessionReply {
                    out: text::no_lines(),
                    err: text::no_lines(),
                    log: text::one_line("watch stop (graceful)".to_owned()),
                    action: SessionAction::Finish(Ok(())),
                }
            },
            _ => silent(SessionAction::Stay),
        }
    }
}

} // verus!
