//! The menu: what a line of input leads to, and what is said.
//!
//! The watcher runs beside the menu. The menu starts and stops it, restores and
//! lists windows, and ends. It is told of each line that is read and of what came
//! of each thing that it asked for; it answers with lines to print and with what is
//! to be done next. An end of the input is an end of the menu.

use vstd::prelude::*;

use crate::appid;
use crate::l10n;
use crate::l10n::L10n;
use crate::l10n::Lang;
use crate::text;
use crate::winevent::WatchOptions;
use crate::winevent::WatchStrategy;

verus! {

/// What the menu waits for.
pub enum Phase {
    /// A choice.
    Choice,
    /// The name of a group.
    GroupName,
    /// A confirmation before windows are restored.
    RestoreConfirm,
    /// An answer whether windows are restored before the end.
    ExitConfirm,
    /// The start of the watcher; the name of the group where there is one.
    Starting(Option<String>),
    /// The stop of the watcher.
    Stopping,
    /// The stop of the watcher before the end, and whether windows are restored
    /// then.
    ExitStopping(bool),
    /// The stop of the watcher after the input has ended.
    ClosedStopping,
    /// Windows are restored.
    Restoring,
    /// Windows are restored before the end.
    ExitRestoring,
    /// Windows are listed.
    Inspecting,
    /// Nothing: the menu has ended.
    Ended,
}

/// The menu.
pub struct Menu {
    pub loc: L10n,
    /// The line of the watcher, while it runs.
    pub running: Option<WatchStrategy>,
    pub phase: Phase,
    /// Whether restoring windows before the end has failed.
    pub restore_failed: bool,
}

/// What is to be done next.
pub enum MenuAction {
    /// Begin the next turn.
    NextTurn,
    /// Print this without a line feed and read a line.
    Prompt(String),
    /// Start the watcher along a line, then call `spawned`.
    Spawn(WatchStrategy, Option<String>),
    /// Stop the watcher, then call `stopped`.
    Stop,
    /// Restore all windows, then call `restored`.
    Restore,
    /// List the windows, then call `inspected`.
    Inspect,
    /// End with this exit code.
    Exit(u8),
}

/// An answer of the menu: what is printed, and what is done then.
pub struct Answer {
    pub lines: Vec<String>,
    pub action: MenuAction,
}

/// How a watcher has ended by itself.
pub enum Ending {
    /// In good order.
    Finished,
    /// With an error.
    Failed(String),
    /// With a crash.
    Crashed,
}

// ---------------------------------------------------------------------------
// Models
// ---------------------------------------------------------------------------

/// What the menu waits for, as a value.
#[verifier::ext_equal]
pub enum PhaseView {
    Choice,
    GroupName,
    RestoreConfirm,
    ExitConfirm,
    Starting(Option<Seq<char>>),
    Stopping,
    ExitStopping(bool),
    ClosedStopping,
    Restoring,
    ExitRestoring,
    Inspecting,
    Ended,
}

/// The menu, as a value.
#[verifier::ext_equal]
pub struct MenuView {
    pub lang: Lang,
    pub running: Option<WatchStrategy>,
    pub phase: PhaseView,
    pub restore_failed: bool,
}

/// What is to be done next, as a value.
#[verifier::ext_equal]
pub enum MenuActionView {
    NextTurn,
    Prompt(Seq<char>),
    Spawn(WatchStrategy, Option<Seq<char>>),
    Stop,
    Restore,
    Inspect,
    Exit(u8),
}

/// An answer, as a value.
#[verifier::ext_equal]
pub struct AnswerView {
    pub lines: Seq<Seq<char>>,
    pub action: MenuActionView,
}

impl View for Phase {
    type V = PhaseView;

    open spec fn view(&self) -> PhaseView {
        match self {
            Phase::Choice => PhaseView::Choice,
            Phase::GroupName => PhaseView::GroupName,
            Phase::RestoreConfirm => PhaseView::RestoreConfirm,
            Phase::ExitConfirm => PhaseView::ExitConfirm,
            Phase::Starting(name) => PhaseView::Starting(text::opt_text(*name)),
            Phase::Stopping => PhaseView::Stopping,
            Phase::ExitStopping(restore) => PhaseView::ExitStopping(*restore),
            Phase::ClosedStopping => PhaseView::ClosedStopping,
            Phase::Restoring => PhaseView::Restoring,
            Phase::ExitRestoring => PhaseView::ExitRestoring,
            Phase::Inspecting => PhaseView::Inspecting,
            Phase::Ended => PhaseView::Ended,
        }
    }
}

impl View for Menu {
    type V = MenuView;

    open spec fn view(&self) -> MenuView {
        MenuView {
            lang: self.loc.lang,
            running: self.running,
            phase: self.phase@,
            restore_failed: self.restore_failed,
        }
    }
}

impl View for MenuAction {
    type V = MenuActionView;

    open spec fn view(&self) -> MenuActionView {
        match self {
            MenuAction::NextTurn => MenuActionView::NextTurn,
            MenuAction::Prompt(s) => MenuActionView::Prompt(s@),
            MenuAction::Spawn(s, name) => MenuActionView::Spawn(*s, text::opt_text(*name)),
            MenuAction::Stop => MenuActionView::Stop,
            MenuAction::Restore => MenuActionView::Restore,
            MenuAction::Inspect => MenuActionView::Inspect,
            MenuAction::Exit(code) => MenuActionView::Exit(*code),
        }
    }
}

impl View for Answer {
    type V = AnswerView;

    open spec fn view(&self) -> AnswerView {
        AnswerView { lines: text::texts(self.lines@), action: self.action@ }
    }
}

/// The name of a line in the menu.
pub open spec fn watch_label(s: WatchStrategy) -> Seq<char> {
    match s {
        WatchStrategy::Ungroup => "ungroup (line 1: disable grouping on the taskbar)"@,
        WatchStrategy::Group => "group (line 2: shared AUMID)"@,
    }
}

/// A line of input without the mark that some programs put before their first line.
pub open spec fn without_bom(s: Seq<char>) -> Seq<char> {
    if s.len() > 0 && s[0] == '\u{feff}' {
        s.skip(1)
    } else {
        s
    }
}

/// Whether a line of input says yes.
pub open spec fn says_yes(s: Seq<char>) -> bool {
    let w = text::lower(text::trim(s));
    w == "y"@ || w == "yes"@
}

/// The choices.
pub open spec fn menu_lines(lang: Lang, running: Option<WatchStrategy>) -> Seq<Seq<char>> {
    seq![
        Seq::empty(),
        match running {
            Some(s) => l10n::status_running_text(lang, watch_label(s)),
            None => l10n::status_not_running_text(lang),
        },
        l10n::item1_text(lang),
        l10n::item2_text(lang),
        l10n::item3_text(lang),
        l10n::item4_text(lang),
        l10n::item5_text(lang),
        l10n::item0_text(lang),
        l10n::lang_hint_text(lang),
    ]
}

/// What is said of a watcher that has ended by itself.
pub open spec fn ending_lines(lang: Lang, e: Ending) -> Seq<Seq<char>> {
    seq![
        match e {
            Ending::Finished => l10n::watch_ended_own_text(lang),
            Ending::Failed(w) => l10n::watch_failed_text(lang, w@),
            Ending::Crashed => l10n::watch_panicked_text(lang),
        },
        l10n::status_not_running_text(lang),
    ]
}

/// The exit code: one where restoring windows before the end has failed.
pub open spec fn code_of(restore_failed: bool) -> u8 {
    if restore_failed {
        1
    } else {
        0
    }
}

/// What a turn begins with: a watcher that has ended by itself, the choices, and
/// the prompt.
pub open spec fn turned(m: MenuView, ended: Option<Ending>) -> (MenuView, AnswerView) {
    match ended {
        Some(e) if m.running is Some => (
            MenuView { running: None, phase: PhaseView::Choice, ..m },
            AnswerView {
                lines: ending_lines(m.lang, e) + menu_lines(m.lang, None),
                action: MenuActionView::Prompt("> "@),
            },
        ),
        _ => (
            MenuView { phase: PhaseView::Choice, ..m },
            AnswerView {
                lines: menu_lines(m.lang, m.running),
                action: MenuActionView::Prompt("> "@),
            },
        ),
    }
}

/// The menu goes on with the next turn, after one line.
pub open spec fn goes_on(m: MenuView, line: Seq<char>) -> (MenuView, AnswerView) {
    (
        MenuView { phase: PhaseView::Choice, ..m },
        AnswerView { lines: seq![line], action: MenuActionView::NextTurn },
    )
}

/// The menu asks for something and waits for it.
pub open spec fn asks(m: MenuView, phase: PhaseView, action: MenuActionView) -> (
    MenuView,
    AnswerView,
) {
    (MenuView { phase, ..m }, AnswerView { lines: Seq::empty(), action })
}

/// The menu ends after lines.
pub open spec fn ends(m: MenuView, lines: Seq<Seq<char>>) -> (MenuView, AnswerView) {
    (
        MenuView { phase: PhaseView::Ended, ..m },
        AnswerView { lines, action: MenuActionView::Exit(code_of(m.restore_failed)) },
    )
}

/// What a choice leads to.
pub open spec fn chosen(m: MenuView, choice: Seq<char>) -> (MenuView, AnswerView) {
    if choice == "l"@ || choice == "L"@ {
        let n = MenuView { lang: l10n::other(m.lang), ..m };
        goes_on(n, l10n::lang_switched_text(n.lang))
    } else if choice == "1"@ {
        if m.running is Some {
            goes_on(m, l10n::watch_already_running_text(m.lang))
        } else {
            asks(
                m,
                PhaseView::Starting(None),
                MenuActionView::Spawn(WatchStrategy::Ungroup, None),
            )
        }
    } else if choice == "2"@ {
        if m.running is Some {
            goes_on(m, l10n::watch_already_running_text(m.lang))
        } else {
            asks(
                m,
                PhaseView::GroupName,
                MenuActionView::Prompt(l10n::group_name_prompt_text(m.lang)),
            )
        }
    } else if choice == "3"@ {
        if m.running is Some {
            asks(MenuView { running: None, ..m }, PhaseView::Stopping, MenuActionView::Stop)
        } else {
            goes_on(m, l10n::watch_not_running_text(m.lang))
        }
    } else if choice == "4"@ {
        if m.running is Some {
            goes_on(m, l10n::stop_first_restore_text(m.lang))
        } else {
            asks(
                m,
                PhaseView::RestoreConfirm,
                MenuActionView::Prompt(l10n::restore_confirm_text(m.lang)),
            )
        }
    } else if choice == "5"@ {
        asks(m, PhaseView::Inspecting, MenuActionView::Inspect)
    } else if choice == "0"@ {
        if m.running is Some {
            asks(
                m,
                PhaseView::ExitConfirm,
                MenuActionView::Prompt(l10n::exit_confirm_text(m.lang)),
            )
        } else {
            ends(m, seq![l10n::exiting_bye_text(m.lang)])
        }
    } else {
        goes_on(m, l10n::unknown_option_text(m.lang, choice))
    }
}

/// What the name of a group leads to.
pub open spec fn named(m: MenuView, name: Seq<char>) -> (MenuView, AnswerView) {
    if name.len() == 0 {
        goes_on(m, l10n::cancelled_empty_group_text(m.lang))
    } else if !appid::group_name(name) {
        goes_on(m, l10n::invalid_group_name_text(m.lang, appid::group_name_error(name)))
    } else {
        asks(
            m,
            PhaseView::Starting(Some(name)),
            MenuActionView::Spawn(WatchStrategy::Group, Some(name)),
        )
    }
}

/// What a line of input leads to.
pub open spec fn on_input(m: MenuView, line: Seq<char>) -> (MenuView, AnswerView) {
    let s = without_bom(line);
    match m.phase {
        PhaseView::Choice => chosen(m, text::trim(s)),
        PhaseView::GroupName => named(m, text::trim(s)),
        PhaseView::RestoreConfirm => if says_yes(s) {
            asks(m, PhaseView::Restoring, MenuActionView::Restore)
        } else {
            goes_on(m, l10n::restore_cancelled_text(m.lang))
        },
        PhaseView::ExitConfirm => asks(
            MenuView { running: None, ..m },
            PhaseView::ExitStopping(says_yes(s)),
            MenuActionView::Stop,
        ),
        _ => (m, AnswerView { lines: Seq::empty(), action: MenuActionView::NextTurn }),
    }
}

/// What the end of the input leads to: the end, with the watcher stopped before.
pub open spec fn on_closed(m: MenuView) -> (MenuView, AnswerView) {
    let lines = seq![
        Seq::empty(),
        if m.phase is RestoreConfirm {
            l10n::stdin_closed_kept_text(m.lang)
        } else {
            l10n::stdin_closed_watch_kept_text(m.lang)
        },
    ];
    if m.running is Some {
        (
            MenuView { running: None, phase: PhaseView::ClosedStopping, ..m },
            AnswerView { lines, action: MenuActionView::Stop },
        )
    } else {
        ends(m, lines)
    }
}

/// What follows the start of the watcher.
pub open spec fn on_spawned(m: MenuView) -> (MenuView, AnswerView) {
    match m.phase {
        PhaseView::Starting(Some(name)) => goes_on(
            MenuView { running: Some(WatchStrategy::Group), ..m },
            l10n::watch_started_group_text(m.lang, name),
        ),
        PhaseView::Starting(None) => goes_on(
            MenuView { running: Some(WatchStrategy::Ungroup), ..m },
            l10n::watch_started_ungroup_text(m.lang),
        ),
        _ => (m, AnswerView { lines: Seq::empty(), action: MenuActionView::NextTurn }),
    }
}

/// What follows the stop of the watcher, which may have ended with an error.
pub open spec fn on_stopped(m: MenuView, error: Option<Seq<char>>) -> (MenuView, AnswerView) {
    match m.phase {
        PhaseView::Stopping => goes_on(
            m,
            match error {
                None => l10n::watch_stopped_kept_text(m.lang),
                Some(e) => l10n::watch_stop_failed_text(m.lang, e),
            },
        ),
        PhaseView::ExitStopping(restore) => {
            let line = match error {
                None => l10n::watch_stopped_stats_text(m.lang),
                Some(e) => l10n::watch_stop_failed_text(m.lang, e),
            };
            if restore {
                (
                    MenuView { phase: PhaseView::ExitRestoring, ..m },
                    AnswerView { lines: seq![line], action: MenuActionView::Restore },
                )
            } else {
                ends(m, seq![line, l10n::exiting_bye_text(m.lang)])
            }
        },
        PhaseView::ClosedStopping => ends(m, Seq::empty()),
        _ => (m, AnswerView { lines: Seq::empty(), action: MenuActionView::NextTurn }),
    }
}

/// What follows when windows were restored, or could not be.
pub open spec fn on_restored(m: MenuView, error: Option<Seq<char>>) -> (MenuView, AnswerView) {
    let line = match error {
        None => l10n::restore_finished_text(m.lang),
        Some(e) => l10n::restore_failed_text(m.lang, e),
    };
    match m.phase {
        PhaseView::Restoring => goes_on(m, line),
        PhaseView::ExitRestoring => ends(
            MenuView { restore_failed: m.restore_failed || error is Some, ..m },
            seq![line, l10n::exiting_bye_text(m.lang)],
        ),
        _ => (m, AnswerView { lines: Seq::empty(), action: MenuActionView::NextTurn }),
    }
}

/// What follows when windows were listed, or could not be.
pub open spec fn on_inspected(m: MenuView, error: Option<Seq<char>>) -> (MenuView, AnswerView) {
    match (m.phase, error) {
        (PhaseView::Inspecting, Some(e)) => goes_on(m, l10n::inspect_failed_text(m.lang, e)),
        (PhaseView::Inspecting, None) => asks(m, PhaseView::Choice, MenuActionView::NextTurn),
        _ => (m, AnswerView { lines: Seq::empty(), action: MenuActionView::NextTurn }),
    }
}

// ---------------------------------------------------------------------------
// Laws
// ---------------------------------------------------------------------------

/// What holds of the menu at all times: while it waits for a name, for a start or a
/// stop, or has to do with restoring windows, and when it has ended, no watcher
/// runs; while it asks whether to restore windows before the end, one does.
pub open spec fn consistent(m: MenuView) -> bool {
    match m.phase {
        PhaseView::Choice | PhaseView::Inspecting => true,
        PhaseView::ExitConfirm => m.running is Some,
        _ => m.running is None,
    }
}

/// The menu stays consistent, whatever it is told.
pub proof fn law_stays_consistent(
    m: MenuView,
    line: Seq<char>,
    ended: Option<Ending>,
    error: Option<Seq<char>>,
)
    requires
        consistent(m),
    ensures
        consistent(turned(m, ended).0),
        consistent(on_input(m, line).0),
        consistent(on_closed(m).0),
        consistent(on_spawned(m).0),
        consistent(on_stopped(m, error).0),
        consistent(on_restored(m, error).0),
        consistent(on_inspected(m, error).0),
{
}

/// There is one watcher at a time: the menu asks for one only while none runs.
pub proof fn law_one_watcher_at_a_time(m: MenuView, line: Seq<char>)
    requires
        consistent(m),
    ensures
        on_input(m, line).1.action is Spawn ==> m.running is None,
{
}

/// Windows are not restored while the watcher runs: it would mark them again. Where
/// the menu asks to restore them, no watcher runs.
pub proof fn law_no_restore_beside_watcher(m: MenuView, line: Seq<char>, error: Option<Seq<char>>)
    requires
        consistent(m),
    ensures
        on_input(m, line).1.action is Restore ==> on_input(m, line).0.running is None,
        on_stopped(m, error).1.action is Restore ==> on_stopped(m, error).0.running is None,
{
}

/// The end of the input ends the menu, wherever it was: at once, or when the
/// watcher is stopped; windows are not restored.
pub proof fn law_closed_input_ends(m: MenuView, error: Option<Seq<char>>)
    ensures
        m.running is None ==> on_closed(m).1.action is Exit,
        m.running is Some ==> on_closed(m).1.action is Stop && on_stopped(
            on_closed(m).0,
            error,
        ).1.action is Exit,
{
}

/// Nothing is left running: the menu does not end while a watcher runs.
pub proof fn law_end_leaves_nothing_running(
    m: MenuView,
    line: Seq<char>,
    error: Option<Seq<char>>,
)
    requires
        consistent(m),
    ensures
        on_input(m, line).1.action is Exit ==> on_input(m, line).0.running is None,
        on_closed(m).1.action is Exit ==> on_closed(m).0.running is None,
        on_stopped(m, error).1.action is Exit ==> on_stopped(m, error).0.running is None,
        on_restored(m, error).1.action is Exit ==> on_restored(m, error).0.running is None,
{
}

/// The exit code says whether windows that were to be restored before the end were:
/// after such an attempt it is one where that failed, or an attempt before it.
pub proof fn law_exit_code_tells_of_restore(m: MenuView, error: Option<Seq<char>>)
    requires
        m.phase is ExitRestoring,
    ensures
        on_restored(m, error).1.action == MenuActionView::Exit(
            code_of(m.restore_failed || error is Some),
        ),
{
}

/// A choice is taken whatever blanks stand round it and whether or not a byte order mark stands
/// before it. The watcher is started where none runs and stopped where one runs; windows are
/// restored only while none runs, and after a confirmation; what is no choice is told.
pub proof fn law_choices(m: MenuView, line: Seq<char>)
    requires
        m.phase is Choice,
    ensures
        ({
            let c = text::trim(
                if line.len() > 0 && line[0] == '\u{feff}' {
                    line.skip(1)
                } else {
                    line
                },
            );
            let (n, a) = on_input(m, line);
            let told = |t: Seq<char>| a == (AnswerView {
                lines: seq![t],
                action: MenuActionView::NextTurn,
            });
            let asked = |action: MenuActionView| a == (AnswerView { lines: Seq::empty(), action });
            &&& c == "1"@ && m.running is None ==> n == (MenuView {
                phase: PhaseView::Starting(None),
                ..m
            }) && asked(MenuActionView::Spawn(WatchStrategy::Ungroup, None))
            &&& c == "2"@ && m.running is None ==> n == (MenuView {
                phase: PhaseView::GroupName,
                ..m
            }) && asked(MenuActionView::Prompt(l10n::group_name_prompt_text(m.lang)))
            &&& (c == "1"@ || c == "2"@) && m.running is Some ==> n == m && told(
                l10n::watch_already_running_text(m.lang),
            )
            &&& c == "3"@ && m.running is Some ==> n == (MenuView {
                running: None,
                phase: PhaseView::Stopping,
                ..m
            }) && asked(MenuActionView::Stop)
            &&& c == "3"@ && m.running is None ==> n == m && told(
                l10n::watch_not_running_text(m.lang),
            )
            &&& c == "4"@ && m.running is None ==> n == (MenuView {
                phase: PhaseView::RestoreConfirm,
                ..m
            }) && asked(MenuActionView::Prompt(l10n::restore_confirm_text(m.lang)))
            &&& c == "4"@ && m.running is Some ==> n == m && told(
                l10n::stop_first_restore_text(m.lang),
            )
            &&& c == "5"@ ==> n == (MenuView { phase: PhaseView::Inspecting, ..m }) && asked(
                MenuActionView::Inspect,
            )
            &&& c == "0"@ && m.running is Some ==> n == (MenuView {
                phase: PhaseView::ExitConfirm,
                ..m
            }) && asked(MenuActionView::Prompt(l10n::exit_confirm_text(m.lang)))
            &&& c == "0"@ && m.running is None ==> n == (MenuView { phase: PhaseView::Ended, ..m })
                && a == (AnswerView {
                lines: seq![l10n::exiting_bye_text(m.lang)],
                action: MenuActionView::Exit(
                    if m.restore_failed {
                        1
                    } else {
                        0
                    },
                ),
            })
            &&& c == "l"@ || c == "L"@ ==> n == (MenuView { lang: l10n::other(m.lang), ..m })
                && told(l10n::lang_switched_text(l10n::other(m.lang)))
            &&& c != "0"@ && c != "1"@ && c != "2"@ && c != "3"@ && c != "4"@ && c != "5"@ && c
                != "l"@ && c != "L"@ ==> n == m && told(l10n::unknown_option_text(m.lang, c))
        }),
{
    reveal_strlit("0");
    reveal_strlit("1");
    reveal_strlit("2");
    reveal_strlit("3");
    reveal_strlit("4");
    reveal_strlit("5");
    reveal_strlit("l");
    reveal_strlit("L");
    assert("0"@[0] != "1"@[0] && "0"@[0] != "2"@[0] && "0"@[0] != "3"@[0] && "0"@[0] != "4"@[0]
        && "0"@[0] != "5"@[0] && "0"@[0] != "l"@[0] && "0"@[0] != "L"@[0]);
    assert("1"@[0] != "2"@[0] && "1"@[0] != "3"@[0] && "1"@[0] != "4"@[0] && "1"@[0] != "5"@[0]
        && "1"@[0] != "l"@[0] && "1"@[0] != "L"@[0]);
    assert("2"@[0] != "3"@[0] && "2"@[0] != "4"@[0] && "2"@[0] != "5"@[0] && "2"@[0] != "l"@[0]
        && "2"@[0] != "L"@[0]);
    assert("3"@[0] != "4"@[0] && "3"@[0] != "5"@[0] && "3"@[0] != "l"@[0] && "3"@[0] != "L"@[0]);
    assert("4"@[0] != "5"@[0] && "4"@[0] != "l"@[0] && "4"@[0] != "L"@[0]);
    assert("5"@[0] != "l"@[0] && "5"@[0] != "L"@[0]);
}

/// A name that is valid starts the watcher for that group; none cancels, and one that is not
/// valid is told with the reason.
pub proof fn law_group_names_are_taken(m: MenuView, line: Seq<char>)
    requires
        m.phase is GroupName,
    ensures
        ({
            let name = text::trim(
                if line.len() > 0 && line[0] == '\u{feff}' {
                    line.skip(1)
                } else {
                    line
                },
            );
            let (n, a) = on_input(m, line);
            &&& appid::group_name(name) ==> n == (MenuView {
                phase: PhaseView::Starting(Some(name)),
                ..m
            }) && a == (AnswerView {
                lines: Seq::empty(),
                action: MenuActionView::Spawn(WatchStrategy::Group, Some(name)),
            })
            &&& !appid::group_name(name) ==> n == (MenuView { phase: PhaseView::Choice, ..m }) && a
                == (AnswerView {
                lines: seq![
                    if name.len() == 0 {
                        l10n::cancelled_empty_group_text(m.lang)
                    } else {
                        l10n::invalid_group_name_text(m.lang, appid::group_name_error(name))
                    },
                ],
                action: MenuActionView::NextTurn,
            })
        }),
{
}

/// A yes is `y` or `yes`, in letters of either case, with blanks round it. Only a yes restores
/// windows; the end stops the watcher either way.
pub proof fn law_confirmations(m: MenuView, line: Seq<char>)
    ensures
        ({
            let s = if line.len() > 0 && line[0] == '\u{feff}' {
                line.skip(1)
            } else {
                line
            };
            let w = text::trim(s);
            let yes = (w.len() == 1 && (w[0] == 'y' || w[0] == 'Y')) || (w.len() == 3 && (w[0] == 'y'
                || w[0] == 'Y') && (w[1] == 'e' || w[1] == 'E') && (w[2] == 's' || w[2] == 'S'));
            let (n, a) = on_input(m, line);
            &&& m.phase is RestoreConfirm && yes ==> n == (MenuView {
                phase: PhaseView::Restoring,
                ..m
            }) && a == (AnswerView { lines: Seq::empty(), action: MenuActionView::Restore })
            &&& m.phase is RestoreConfirm && !yes ==> n == (MenuView {
                phase: PhaseView::Choice,
                ..m
            }) && a == (AnswerView {
                lines: seq![l10n::restore_cancelled_text(m.lang)],
                action: MenuActionView::NextTurn,
            })
            &&& m.phase is ExitConfirm ==> n == (MenuView {
                running: None,
                phase: PhaseView::ExitStopping(yes),
                ..m
            }) && a == (AnswerView { lines: Seq::empty(), action: MenuActionView::Stop })
        }),
{
    let s = without_bom(line);
    let w = text::trim(s);
    lemma_yes(w);
}

/// A text is `y` or `yes` in lower case exactly where it is so letter by letter.
proof fn lemma_yes(w: Seq<char>)
    ensures
        (text::lower(w) == "y"@ || text::lower(w) == "yes"@) == ((w.len() == 1 && (w[0] == 'y' || w[0]
            == 'Y')) || (w.len() == 3 && (w[0] == 'y' || w[0] == 'Y') && (w[1] == 'e' || w[1] == 'E')
            && (w[2] == 's' || w[2] == 'S'))),
{
    reveal_strlit("y");
    reveal_strlit("yes");
    let l = text::lower(w);
    text::law_lower(w);
    assert(forall|i: int| 0 <= i < w.len() ==> #[trigger] l[i] == text::lower_char(w[i]));
    if w.len() == 1 && (w[0] == 'y' || w[0] == 'Y') {
        assert(l =~= "y"@);
    }
    if w.len() == 3 && (w[0] == 'y' || w[0] == 'Y') && (w[1] == 'e' || w[1] == 'E') && (w[2] == 's'
        || w[2] == 'S') {
        assert(l =~= "yes"@);
    }
    if l == "y"@ {
        assert(l[0] as u32 == 'y' as u32);
        assert(w[0] == 'y' || w[0] == 'Y');
    }
    if l == "yes"@ {
        assert(l[0] as u32 == 'y' as u32 && l[1] as u32 == 'e' as u32 && l[2] as u32 == 's' as u32);
        assert(w[0] == 'y' || w[0] == 'Y');
        assert(w[1] == 'e' || w[1] == 'E');
        assert(w[2] == 's' || w[2] == 'S');
    }
}

/// A turn shows the state of the watcher, the choices in their order and how to change the
/// language, and prompts. A watcher that has ended by itself is told first, and runs no more.
pub proof fn law_turns(m: MenuView, ended: Option<Ending>, w: String)
    ensures
        ({
            let (n, a) = turned(m, ended);
            let own = ended is Some && m.running is Some;
            let state = match m.running {
                Some(WatchStrategy::Ungroup) => l10n::status_running_text(
                    m.lang,
                    "ungroup (line 1: disable grouping on the taskbar)"@,
                ),
                Some(WatchStrategy::Group) => l10n::status_running_text(
                    m.lang,
                    "group (line 2: shared AUMID)"@,
                ),
                None => l10n::status_not_running_text(m.lang),
            };
            let shown = |first: Seq<char>| seq![
                Seq::<char>::empty(),
                first,
                l10n::item1_text(m.lang),
                l10n::item2_text(m.lang),
                l10n::item3_text(m.lang),
                l10n::item4_text(m.lang),
                l10n::item5_text(m.lang),
                l10n::item0_text(m.lang),
                l10n::lang_hint_text(m.lang),
            ];
            let none = l10n::status_not_running_text(m.lang);
            &&& a.action == MenuActionView::Prompt("> "@)
            &&& !own ==> n == (MenuView { phase: PhaseView::Choice, ..m }) && a.lines == shown(state)
            &&& own ==> n == (MenuView { phase: PhaseView::Choice, running: None, ..m })
            &&& own && ended == Some(Ending::Finished) ==> a.lines == seq![
                l10n::watch_ended_own_text(m.lang),
                none,
            ] + shown(none)
            &&& own && ended == Some(Ending::Failed(w)) ==> a.lines == seq![
                l10n::watch_failed_text(m.lang, w@),
                none,
            ] + shown(none)
            &&& own && ended == Some(Ending::Crashed) ==> a.lines == seq![
                l10n::watch_panicked_text(m.lang),
                none,
            ] + shown(none)
        }),
{
}

/// A watcher that was started runs along the line that was asked for, and that is told.
pub proof fn law_started_watcher_runs(m: MenuView, name: Seq<char>)
    ensures
        m.phase == PhaseView::Starting(None) ==> on_spawned(m) == (
            MenuView { running: Some(WatchStrategy::Ungroup), phase: PhaseView::Choice, ..m },
            AnswerView {
                lines: seq![l10n::watch_started_ungroup_text(m.lang)],
                action: MenuActionView::NextTurn,
            },
        ),
        m.phase == PhaseView::Starting(Some(name)) ==> on_spawned(m) == (
            MenuView { running: Some(WatchStrategy::Group), phase: PhaseView::Choice, ..m },
            AnswerView {
                lines: seq![l10n::watch_started_group_text(m.lang, name)],
                action: MenuActionView::NextTurn,
            },
        ),
{
}

/// A watcher that was stopped is told, with its error where it had one; before the end windows
/// are restored then where that was wanted, and else the menu ends.
pub proof fn law_stopped_watcher_is_told(m: MenuView, restore: bool, error: Option<Seq<char>>)
    ensures
        ({
            let (n, a) = on_stopped(m, error);
            let told = |well: Seq<char>| match error {
                None => well,
                Some(e) => l10n::watch_stop_failed_text(m.lang, e),
            };
            let code = MenuActionView::Exit(
                if m.restore_failed {
                    1
                } else {
                    0
                },
            );
            let stats = told(l10n::watch_stopped_stats_text(m.lang));
            &&& m.phase is Stopping ==> n == (MenuView { phase: PhaseView::Choice, ..m }) && a == (
            AnswerView {
                lines: seq![told(l10n::watch_stopped_kept_text(m.lang))],
                action: MenuActionView::NextTurn,
            })
            &&& m.phase == PhaseView::ExitStopping(true) ==> n == (MenuView {
                phase: PhaseView::ExitRestoring,
                ..m
            }) && a == (AnswerView { lines: seq![stats], action: MenuActionView::Restore })
            &&& m.phase == PhaseView::ExitStopping(false) ==> n == (MenuView {
                phase: PhaseView::Ended,
                ..m
            }) && a == (AnswerView {
                lines: seq![stats, l10n::exiting_bye_text(m.lang)],
                action: code,
            })
            &&& m.phase is ClosedStopping ==> n == (MenuView { phase: PhaseView::Ended, ..m }) && a
                == (AnswerView { lines: Seq::empty(), action: code })
        }),
{
}

/// What came of restoring or listing windows is told, with the error where there was one; a
/// list that was printed needs no word. Before the end, the menu ends then.
pub proof fn law_results_are_told(m: MenuView, error: Option<Seq<char>>)
    ensures
        ({
            let line = match error {
                None => l10n::restore_finished_text(m.lang),
                Some(e) => l10n::restore_failed_text(m.lang, e),
            };
            let (n, a) = on_restored(m, error);
            let (k, b) = on_inspected(m, error);
            &&& m.phase is Restoring ==> n == (MenuView { phase: PhaseView::Choice, ..m }) && a == (
            AnswerView { lines: seq![line], action: MenuActionView::NextTurn })
            &&& m.phase is ExitRestoring ==> n == (MenuView {
                phase: PhaseView::Ended,
                restore_failed: m.restore_failed || error is Some,
                ..m
            }) && a == (AnswerView {
                lines: seq![line, l10n::exiting_bye_text(m.lang)],
                action: MenuActionView::Exit(
                    if m.restore_failed || error is Some {
                        1
                    } else {
                        0
                    },
                ),
            })
            &&& m.phase is Inspecting ==> k == (MenuView { phase: PhaseView::Choice, ..m }) && b == (
            AnswerView {
                lines: match error {
                    None => Seq::empty(),
                    Some(e) => seq![l10n::inspect_failed_text(m.lang, e)],
                },
                action: MenuActionView::NextTurn,
            })
        }),
{
}

/// The end of the input is told, and that nothing was restored; a watcher that runs is stopped
/// then, and else the menu ends.
pub proof fn law_closed_input_is_told(m: MenuView)
    ensures
        ({
            let (n, a) = on_closed(m);
            &&& a.lines == seq![
                Seq::<char>::empty(),
                match m.phase {
                    PhaseView::RestoreConfirm => l10n::stdin_closed_kept_text(m.lang),
                    _ => l10n::stdin_closed_watch_kept_text(m.lang),
                },
            ]
            &&& m.running is Some ==> a.action is Stop && n == (MenuView {
                running: None,
                phase: PhaseView::ClosedStopping,
                ..m
            })
            &&& m.running is None ==> n == (MenuView { phase: PhaseView::Ended, ..m }) && a.action
                == MenuActionView::Exit(
                if m.restore_failed {
                    1
                } else {
                    0
                },
            )
        }),
{
}

/// What the menu does not wait for changes nothing.
pub proof fn law_others_change_nothing(m: MenuView, line: Seq<char>, error: Option<Seq<char>>)
    ensures
        ({
            let nothing = (
                m,
                AnswerView { lines: Seq::empty(), action: MenuActionView::NextTurn },
            );
            &&& m.phase !is Choice && m.phase !is GroupName && m.phase !is RestoreConfirm
                && m.phase !is ExitConfirm ==> on_input(m, line) == nothing
            &&& m.phase !is Starting ==> on_spawned(m) == nothing
            &&& m.phase !is Stopping && m.phase !is ExitStopping && m.phase !is ClosedStopping
                ==> on_stopped(m, error) == nothing
            &&& m.phase !is Restoring && m.phase !is ExitRestoring ==> on_restored(m, error)
                == nothing
            &&& m.phase !is Inspecting ==> on_inspected(m, error) == nothing
        }),
{
}

/// The menu is taken for what its fields hold, and an answer for what it says and asks for.
pub proof fn law_menu_is_its_fields(m: Menu, a: Answer, s: WatchStrategy, name: Option<String>, line: String, b: bool, code: u8)
    ensures
        m@.lang == m.loc.lang && m@.running == m.running && m@.restore_failed == m.restore_failed,
        m@.phase == m.phase@,
        a@.action == a.action@,
        a@.lines == text::texts(a.lines@),
        Phase::Choice@ == PhaseView::Choice && Phase::GroupName@ == PhaseView::GroupName,
        Phase::RestoreConfirm@ == PhaseView::RestoreConfirm,
        Phase::ExitConfirm@ == PhaseView::ExitConfirm,
        Phase::Starting(name)@ == PhaseView::Starting(text::opt_text(name)),
        Phase::Stopping@ == PhaseView::Stopping,
        Phase::ExitStopping(b)@ == PhaseView::ExitStopping(b),
        Phase::ClosedStopping@ == PhaseView::ClosedStopping,
        Phase::Restoring@ == PhaseView::Restoring,
        Phase::ExitRestoring@ == PhaseView::ExitRestoring,
        Phase::Inspecting@ == PhaseView::Inspecting && Phase::Ended@ == PhaseView::Ended,
        MenuAction::NextTurn@ == MenuActionView::NextTurn,
        MenuAction::Prompt(line)@ == MenuActionView::Prompt(line@),
        MenuAction::Spawn(s, name)@ == MenuActionView::Spawn(s, text::opt_text(name)),
        MenuAction::Stop@ == MenuActionView::Stop && MenuAction::Restore@
            == MenuActionView::Restore,
        MenuAction::Inspect@ == MenuActionView::Inspect,
        MenuAction::Exit(code)@ == MenuActionView::Exit(code),
{
}

// ---------------------------------------------------------------------------
// Functions
// ---------------------------------------------------------------------------

/// How a watcher that the menu starts is to run: along the line and for the group that
/// were chosen, with no end, until it is asked to stop, and without a log file.
pub fn watch_options(strategy: WatchStrategy, group_name: Option<String>) -> (r: WatchOptions)
    ensures
        r == (WatchOptions {
            duration_secs: 0,
            dry_run: false,
            verbose: false,
            strategy,
            group_name,
            stoppable: true,
            ring_log: false,
        }),
{
    WatchOptions {
        duration_secs: 0,
        dry_run: false,
        verbose: false,
        strategy,
        group_name,
        stoppable: true,
        ring_log: false,
    }
}

/// A line of input without the mark that some programs put before their first line.
pub fn strip_bom<'a>(line: &'a str) -> (r: &'a str)
    ensures
        r@ == without_bom(line@),
{
    let v: Vec<char> = text::chars_of(line);
    let n: usize = v.len();
    if n > 0 && v[0] == '\u{feff}' {
        line.substring_char(1, n)
    } else {
        line
    }
}

/// Whether a line of input says yes.
pub fn is_yes(line: &str) -> (r: bool)
    ensures
        r == says_yes(line@),
{
    let t: Vec<char> = text::trimmed(text::chars_of(line).as_slice());
    let w: Vec<char> = text::lowered(t.as_slice());
    text::is_text(w.as_slice(), "y") || text::is_text(w.as_slice(), "yes")
}

/// The exit code.
pub fn exit_code(restore_failed: bool) -> (r: u8)
    ensures
        r == code_of(restore_failed),
{
    if restore_failed {
        1
    } else {
        0
    }
}

/// The name of a line in the menu.
fn label_of(s: WatchStrategy) -> (r: &'static str)
    ensures
        r@ == watch_label(s),
{
    match s {
        WatchStrategy::Ungroup => "ungroup (line 1: disable grouping on the taskbar)",
        WatchStrategy::Group => "group (line 2: shared AUMID)",
    }
}

/// The choices.
pub fn print_menu(loc: &L10n, running: Option<WatchStrategy>) -> (out: Vec<String>)
    ensures
        text::texts(out@) == menu_lines(loc.lang, running),
{
    let mut out: Vec<String> = text::no_lines();
    text::say(&mut out, String::new());
    match running {
        Some(s) => {
            text::say(&mut out, loc.status_running(label_of(s)));
        },
        None => {
            text::say(&mut out, loc.status_not_running().to_owned());
        },
    }
    text::say(&mut out, loc.item1().to_owned());
    text::say(&mut out, loc.item2().to_owned());
    text::say(&mut out, loc.item3().to_owned());
    text::say(&mut out, loc.item4().to_owned());
    text::say(&mut out, loc.item5().to_owned());
    text::say(&mut out, loc.item0().to_owned());
    text::say(&mut out, loc.lang_hint().to_owned());
    out
}

impl Menu {
    /// A menu in the language of a system language id, with its first lines.
    pub fn new(language_id: u16) -> (r: (Menu, Vec<String>))
        ensures
            r.0@ == (MenuView {
                lang: l10n::lang_of(language_id),
                running: None,
                phase: PhaseView::Choice,
                restore_failed: false,
            }),
            text::texts(r.1@) == seq![
                l10n::banner_text(l10n::lang_of(language_id)),
                l10n::tip_text(l10n::lang_of(language_id)),
            ],
    {
        let loc: L10n = L10n::new(language_id);
        let mut out: Vec<String> = text::one_line(loc.banner());
        text::say(&mut out, loc.tip().to_owned());
        (Menu { loc, running: None, phase: Phase::Choice, restore_failed: false }, out)
    }

    /// The next turn begins; `ended` is how the watcher has ended by itself, where
    /// it has.
    pub fn begin_turn(&mut self, ended: Option<Ending>) -> (r: Answer)
        ensures
            (final(self)@, r@) == turned(old(self)@, ended),
    {
        let mut lines: Vec<String> = text::no_lines();
        let ghost mut said: Seq<Seq<char>> = Seq::empty();
        if self.running.is_some() {
            if let Some(e) = ended {
                match &e {
                    Ending::Finished => {
                        text::say(&mut lines, self.loc.watch_ended_own().to_owned());
                    },
                    Ending::Failed(w) => {
                        text::say(&mut lines, self.loc.watch_failed(w.as_str()));
                    },
                    Ending::Crashed => {
                        text::say(&mut lines, self.loc.watch_panicked().to_owned());
                    },
                }
                text::say(&mut lines, self.loc.status_not_running().to_owned());
                self.running = None;
                proof {
                    said = ending_lines(self.loc.lang, e);
                    assert(text::texts(lines@) =~= said);
                }
            }
        }
        let mut choices: Vec<String> = print_menu(&self.loc, self.running);
        let ghost before = lines@;
        let ghost after = choices@;
        lines.append(&mut choices);
        proof {
            assert(text::texts(lines@) =~= text::texts(before) + text::texts(after));
            assert(said.len() == 0 ==> said + text::texts(after) =~= text::texts(after));
        }
        self.phase = Phase::Choice;
        Answer { lines, action: MenuAction::Prompt("> ".to_owned()) }
    }

    /// The menu goes on with the next turn, after one line.
    fn go_on(&mut self, line: String) -> (r: Answer)
        ensures
            (final(self)@, r@) == goes_on(old(self)@, line@),
    {
        self.phase = Phase::Choice;
        Answer { lines: text::one_line(line), action: MenuAction::NextTurn }
    }

    /// The menu asks for something and waits for it.
    fn ask(&mut self, phase: Phase, action: MenuAction) -> (r: Answer)
        ensures
            (final(self)@, r@) == asks(old(self)@, phase@, action@),
    {
        self.phase = phase;
        Answer { lines: text::no_lines(), action }
    }

    /// The menu ends after lines.
    fn end(&mut self, lines: Vec<String>) -> (r: Answer)
        ensures
            (final(self)@, r@) == ends(old(self)@, text::texts(lines@)),
    {
        self.phase = Phase::Ended;
        Answer { lines, action: MenuAction::Exit(exit_code(self.restore_failed)) }
    }

    /// What a choice leads to.
    fn take_choice(&mut self, choice: &[char]) -> (r: Answer)
        ensures
            (final(self)@, r@) == chosen(old(self)@, choice@),
    {
        if text::is_text(choice, "l") || text::is_text(choice, "L") {
            self.loc.toggle();
            let line: String = self.loc.lang_switched();
            self.go_on(line)
        } else if text::is_text(choice, "1") {
            if self.running.is_some() {
                let line: String = self.loc.watch_already_running().to_owned();
                self.go_on(line)
            } else {
                self.ask(
                    Phase::Starting(None),
                    MenuAction::Spawn(WatchStrategy::Ungroup, None),
                )
            }
        } else if text::is_text(choice, "2") {
            if self.running.is_some() {
                let line: String = self.loc.watch_already_running().to_owned();
                self.go_on(line)
            } else {
                let prompt: String = self.loc.group_name_prompt().to_owned();
                self.ask(Phase::GroupName, MenuAction::Prompt(prompt))
            }
        } else if text::is_text(choice, "3") {
            if self.running.is_some() {
                self.running = None;
                self.ask(Phase::Stopping, MenuAction::Stop)
            } else {
                let line: String = self.loc.watch_not_running().to_owned();
                self.go_on(line)
            }
        } else if text::is_text(choice, "4") {
            if self.running.is_some() {
                let line: String = self.loc.stop_first_restore().to_owned();
                self.go_on(line)
            } else {
                let prompt: String = self.loc.restore_confirm().to_owned();
                self.ask(Phase::RestoreConfirm, MenuAction::Prompt(prompt))
            }
        } else if text::is_text(choice, "5") {
            self.ask(Phase::Inspecting, MenuAction::Inspect)
        } else if text::is_text(choice, "0") {
            if self.running.is_some() {
                let prompt: String = self.loc.exit_confirm().to_owned();
                self.ask(Phase::ExitConfirm, MenuAction::Prompt(prompt))
            } else {
                let line: String = self.loc.exiting_bye().to_owned();
                self.end(text::one_line(line))
            }
        } else {
            let line: String = self.loc.unknown_option(text::text_of(choice).as_str());
            self.go_on(line)
        }
    }

    /// What the name of a group leads to.
    fn name_group(&mut self, name: &[char]) -> (r: Answer)
        ensures
            (final(self)@, r@) == named(old(self)@, name@),
    {
        if name.len() == 0 {
            let line: String = self.loc.cancelled_empty_group().to_owned();
            return self.go_on(line);
        }
        let name: String = text::text_of(name);
        match appid::group_aumid(name.as_str()) {
            Err(e) => {
                let line: String = self.loc.invalid_group_name(e.as_str());
                self.go_on(line)
            },
            Ok(_) => {
                let copy: String = name.clone();
                self.ask(
                    Phase::Starting(Some(copy)),
                    MenuAction::Spawn(WatchStrategy::Group, Some(name)),
                )
            },
        }
    }

    /// Is told of a line that was read.
    pub fn on_line(&mut self, line: &str) -> (r: Answer)
        ensures
            (final(self)@, r@) == on_input(old(self)@, line@),
    {
        let s: &str = strip_bom(line);
        let t: Vec<char> = text::trimmed(text::chars_of(s).as_slice());
        match &self.phase {
            Phase::Choice => self.take_choice(t.as_slice()),
            Phase::GroupName => self.name_group(t.as_slice()),
            Phase::RestoreConfirm => {
                if is_yes(s) {
                    self.ask(Phase::Restoring, MenuAction::Restore)
                } else {
                    let line: String = self.loc.restore_cancelled().to_owned();
                    self.go_on(line)
                }
            },
            Phase::ExitConfirm => {
                self.running = None;
                self.ask(Phase::ExitStopping(is_yes(s)), MenuAction::Stop)
            },
            _ => Answer { lines: text::no_lines(), action: MenuAction::NextTurn },
        }
    }

    /// Is told that the input has ended.
    pub fn on_end_of_input(&mut self) -> (r: Answer)
        ensures
            (final(self)@, r@) == on_closed(old(self)@),
    {
        let mut lines: Vec<String> = text::one_line(String::new());
        match &self.phase {
            Phase::RestoreConfirm => {
                text::say(&mut lines, self.loc.stdin_closed_kept().to_owned());
            },
            _ => {
                text::say(&mut lines, self.loc.stdin_closed_watch_kept().to_owned());
            },
        }
        if self.running.is_some() {
            self.running = None;
            self.phase = Phase::ClosedStopping;
            Answer { lines, action: MenuAction::Stop }
        } else {
            self.end(lines)
        }
    }

    /// Is told that the watcher was started.
    pub fn spawned(&mut self) -> (r: Answer)
        ensures
            (final(self)@, r@) == on_spawned(old(self)@),
    {
        let line: String = match &self.phase {
            Phase::Starting(Some(name)) => {
                self.running = Some(WatchStrategy::Group);
                self.loc.watch_started_group(name.as_str())
            },
            Phase::Starting(None) => {
                self.running = Some(WatchStrategy::Ungroup);
                self.loc.watch_started_ungroup().to_owned()
            },
            _ => {
                return Answer { lines: text::no_lines(), action: MenuAction::NextTurn };
            },
        };
        self.go_on(line)
    }

    /// Is told that the watcher was stopped, and how it ended.
    pub fn stopped(&mut self, result: Result<(), String>) -> (r: Answer)
        ensures
            (final(self)@, r@) == on_stopped(old(self)@, text::error_of(result)),
    {
        match &self.phase {
            Phase::Stopping => {
                let line: String = match result {
                    Ok(()) => self.loc.watch_stopped_kept().to_owned(),
                    Err(e) => self.loc.watch_stop_failed(e.as_str()),
                };
                self.go_on(line)
            },
            Phase::ExitStopping(restore) => {
                let restore: bool = *restore;
                let line: String = match result {
                    Ok(()) => self.loc.watch_stopped_stats().to_owned(),
                    Err(e) => self.loc.watch_stop_failed(e.as_str()),
                };
                let mut lines: Vec<String> = text::one_line(line);
                if restore {
                    self.phase = Phase::ExitRestoring;
                    Answer { lines, action: MenuAction::Restore }
                } else {
                    text::say(&mut lines, self.loc.exiting_bye().to_owned());
                    self.end(lines)
                }
            },
            Phase::ClosedStopping => self.end(text::no_lines()),
            _ => Answer { lines: text::no_lines(), action: MenuAction::NextTurn },
        }
    }

    /// Is told whether windows were restored.
    pub fn restored(&mut self, result: Result<(), String>) -> (r: Answer)
        ensures
            (final(self)@, r@) == on_restored(old(self)@, text::error_of(result)),
    {
        let failed: bool = result.is_err();
        let line: String = match result {
            Ok(()) => self.loc.restore_finished().to_owned(),
            Err(e) => self.loc.restore_failed(e.as_str()),
        };
        match &self.phase {
            Phase::Restoring => self.go_on(line),
            Phase::ExitRestoring => {
                if failed {
                    self.restore_failed = true;
                }
                let mut lines: Vec<String> = text::one_line(line);
                text::say(&mut lines, self.loc.exiting_bye().to_owned());
                self.end(lines)
            },
            _ => Answer { lines: text::no_lines(), action: MenuAction::NextTurn },
        }
    }

    /// Is told whether windows were listed.
    pub fn inspected(&mut self, result: Result<(), String>) -> (r: Answer)
        ensures
            (final(self)@, r@) == on_inspected(old(self)@, text::error_of(result)),
    {
        match &self.phase {
            Phase::Inspecting => match result {
                Ok(()) => self.ask(Phase::Choice, MenuAction::NextTurn),
                Err(e) => {
                    let line: String = self.loc.inspect_failed(e.as_str());
                    self.go_on(line)
                },
            },
            _ => Answer { lines: text::no_lines(), action: MenuAction::NextTurn },
        }
    }
}

} // verus!
