//! The command line: which command is meant, what its arguments say, and what the
//! commands print.

use vstd::prelude::*;

use crate::appid;
use crate::autostart;
use crate::autostart::InstallOutcome;
use crate::autostart::UninstallOutcome;
use crate::num;
use crate::restoremap::MapStatus;
use crate::shortcut;
use crate::text;
use crate::utf16;
use crate::winevent::WatchOptions;
use crate::winevent::WatchStrategy;
use crate::winutil;
use crate::winutil::WindowFacts;

verus! {

/// The exit code of a program that was used wrongly.
pub const USAGE_EXIT_CODE: u8 = 2;

/// A command.
#[derive(Clone, Copy, PartialEq, Eq, Structural)]
pub enum Command {
    /// No arguments: the menu.
    Menu,
    Help,
    Version,
    Inspect,
    SetId,
    Watch,
    Restore,
    Install,
    Uninstall,
    Status,
    Pin,
    Unpin,
    /// None that is known.
    Unknown,
}

/// The arguments of `inspect`.
#[derive(Clone, Copy)]
pub struct InspectArgs {
    /// One window.
    pub hwnd: Option<usize>,
    /// All windows, not only application windows.
    pub all: bool,
    /// JSON.
    pub json: bool,
}

/// The arguments of `restore`.
#[derive(Clone, Copy)]
pub struct RestoreArgs {
    /// One window.
    pub hwnd: Option<usize>,
    pub dry_run: bool,
}

/// What `set` gives a window.
pub enum SetMode {
    /// The suffixed form of its id.
    Suffix,
    /// This id.
    Value(String),
}

/// The arguments of `set`.
pub struct SetArgs {
    pub hwnd: usize,
    pub mode: SetMode,
}

/// A write that `set` is to make.
pub struct SetPlan {
    /// The id that the window is to have.
    pub value: String,
    /// What is said on standard error before.
    pub warning: Option<String>,
}

/// The arguments of `install`.
pub struct InstallArgs {
    pub strategy: WatchStrategy,
    pub group_name: Option<String>,
}

/// Where a tile goes.
pub enum PinPlace {
    /// The directory for tiles below the data directory.
    Default,
    /// This directory.
    Directory(String),
    /// The pinned tiles of the taskbar.
    Taskbar,
}

/// The arguments of `pin`.
pub struct PinArgs {
    pub group: String,
    /// The shared id of the group.
    pub aumid: String,
    pub target: String,
    pub icon: Option<(String, i32)>,
    pub arguments: Option<String>,
    pub place: PinPlace,
}

// ---------------------------------------------------------------------------
// Models
// ---------------------------------------------------------------------------

/// The command that the first argument names.
pub open spec fn command_of(args: Seq<Seq<char>>) -> Command {
    if args.len() == 0 {
        Command::Menu
    } else if args[0] == "-h"@ || args[0] == "--help"@ {
        Command::Help
    } else if args[0] == "-V"@ || args[0] == "--version"@ {
        Command::Version
    } else if args[0] == "inspect"@ {
        Command::Inspect
    } else if args[0] == "set"@ {
        Command::SetId
    } else if args[0] == "watch"@ {
        Command::Watch
    } else if args[0] == "restore"@ {
        Command::Restore
    } else if args[0] == "install"@ {
        Command::Install
    } else if args[0] == "uninstall"@ {
        Command::Uninstall
    } else if args[0] == "status"@ {
        Command::Status
    } else if args[0] == "pin"@ {
        Command::Pin
    } else if args[0] == "unpin"@ {
        Command::Unpin
    } else {
        Command::Unknown
    }
}

/// The exit code of an error: another one where the command was used wrongly.
pub open spec fn error_code(e: Seq<char>) -> u8 {
    if text::starts_with(e, "usage: "@) {
        USAGE_EXIT_CODE
    } else {
        1
    }
}

/// What is said where the value of a flag is missing.
pub open spec fn missing(flag: Seq<char>) -> Seq<char> {
    "usage: missing value for "@ + flag
}

/// What is said of an argument that a command does not know.
pub open spec fn unknown(command: Seq<char>, arg: Seq<char>) -> Seq<char> {
    "usage: "@ + command + ": unknown argument '"@ + arg + "'"@
}

/// What is said of a handle that is none.
pub open spec fn bad_handle(command: Seq<char>, s: Seq<char>) -> Seq<char> {
    "usage: "@ + command + ": "@ + ("invalid HWND '"@ + s
        + "' (expected hex, e.g. 0x00000000010C12A8)"@)
}

/// What the arguments of `inspect` say, over what those before them said.
pub open spec fn inspect_read(args: Seq<Seq<char>>, acc: InspectArgs) -> Result<
    InspectArgs,
    Seq<char>,
>
    decreases args.len(),
{
    if args.len() == 0 {
        Ok(acc)
    } else if args[0] == "--hwnd"@ {
        if args.len() < 2 {
            Err(missing("--hwnd"@))
        } else {
            match winutil::hwnd_of(args[1]) {
                Some(h) => inspect_read(args.skip(2), InspectArgs { hwnd: Some(h), ..acc }),
                None => Err(bad_handle("inspect"@, args[1])),
            }
        }
    } else if args[0] == "--all"@ {
        inspect_read(args.skip(1), InspectArgs { all: true, ..acc })
    } else if args[0] == "--json"@ {
        inspect_read(args.skip(1), InspectArgs { json: true, ..acc })
    } else {
        Err(unknown("inspect"@, args[0]))
    }
}

/// What the arguments of `restore` say, over what those before them said.
pub open spec fn restore_read(args: Seq<Seq<char>>, acc: RestoreArgs) -> Result<
    RestoreArgs,
    Seq<char>,
>
    decreases args.len(),
{
    if args.len() == 0 {
        Ok(acc)
    } else if args[0] == "--hwnd"@ {
        if args.len() < 2 {
            Err(missing("--hwnd"@))
        } else {
            match winutil::hwnd_of(args[1]) {
                Some(h) => restore_read(args.skip(2), RestoreArgs { hwnd: Some(h), ..acc }),
                None => Err(bad_handle("restore"@, args[1])),
            }
        }
    } else if args[0] == "--dry-run"@ {
        restore_read(args.skip(1), RestoreArgs { dry_run: true, ..acc })
    } else {
        Err(unknown("restore"@, args[0]))
    }
}

/// What the flags of `set` say.
#[verifier::ext_equal]
pub struct SetFlags {
    pub hwnd: Option<usize>,
    pub suffix: bool,
    pub value: Option<Seq<char>>,
}

/// What the arguments of `set` say, over what those before them said.
pub open spec fn set_read(args: Seq<Seq<char>>, acc: SetFlags) -> Result<SetFlags, Seq<char>>
    decreases args.len(),
{
    if args.len() == 0 {
        Ok(acc)
    } else if args[0] == "--hwnd"@ {
        if args.len() < 2 {
            Err(missing("--hwnd"@))
        } else {
            match winutil::hwnd_of(args[1]) {
                Some(h) => set_read(args.skip(2), SetFlags { hwnd: Some(h), ..acc }),
                None => Err(bad_handle("set"@, args[1])),
            }
        }
    } else if args[0] == "--suffix"@ {
        set_read(args.skip(1), SetFlags { suffix: true, ..acc })
    } else if args[0] == "--value"@ {
        if args.len() < 2 {
            Err(missing("--value"@))
        } else {
            set_read(args.skip(2), SetFlags { value: Some(args[1]), ..acc })
        }
    } else {
        Err(unknown("set"@, args[0]))
    }
}

/// What is wrong with the arguments of `set` taken together: a window must be
/// named, and either the suffix or a value.
pub open spec fn set_error(f: SetFlags) -> Option<Seq<char>> {
    if f.hwnd is None {
        Some("usage: set: --hwnd <HEX> is required"@)
    } else if f.suffix == (f.value is Some) {
        Some("usage: set: exactly one of --suffix / --value is required"@)
    } else {
        None
    }
}

/// What the flags of `watch` say.
#[verifier::ext_equal]
pub struct WatchFlags {
    pub duration_secs: u64,
    pub dry_run: bool,
    pub verbose: bool,
    pub log: bool,
    pub strategy: WatchStrategy,
    pub group: Option<Seq<char>>,
}

/// The flags of `watch` without arguments: the suffix line for a minute.
pub open spec fn watch_defaults() -> WatchFlags {
    WatchFlags {
        duration_secs: 60,
        dry_run: false,
        verbose: false,
        log: false,
        strategy: WatchStrategy::Ungroup,
        group: None,
    }
}

/// The line that a word names.
pub open spec fn strategy_of(s: Seq<char>) -> Option<WatchStrategy> {
    if s == "ungroup"@ {
        Some(WatchStrategy::Ungroup)
    } else if s == "group"@ {
        Some(WatchStrategy::Group)
    } else {
        None
    }
}

/// What is said of a word that names no line.
pub open spec fn bad_strategy(command: Seq<char>, s: Seq<char>) -> Seq<char> {
    "usage: "@ + command + ": unknown strategy '"@ + s + "' (expected ungroup|group)"@
}

/// What the arguments of `watch` say, over what those before them said.
pub open spec fn watch_read(args: Seq<Seq<char>>, acc: WatchFlags) -> Result<
    WatchFlags,
    Seq<char>,
>
    decreases args.len(),
{
    if args.len() == 0 {
        Ok(acc)
    } else if args[0] == "--duration"@ {
        if args.len() < 2 {
            Err(missing("--duration"@))
        } else {
            match num::unsigned(args[1], 10, u64::MAX as nat) {
                Some(n) => watch_read(
                    args.skip(2),
                    WatchFlags { duration_secs: n as u64, ..acc },
                ),
                None => Err(
                    "usage: watch: invalid duration '"@ + args[1] + "' (expected seconds)"@,
                ),
            }
        }
    } else if args[0] == "--strategy"@ {
        if args.len() < 2 {
            Err(missing("--strategy"@))
        } else {
            match strategy_of(args[1]) {
                Some(s) => watch_read(args.skip(2), WatchFlags { strategy: s, ..acc }),
                None => Err(bad_strategy("watch"@, args[1])),
            }
        }
    } else if args[0] == "--group"@ {
        if args.len() < 2 {
            Err(missing("--group"@))
        } else {
            watch_read(args.skip(2), WatchFlags { group: Some(args[1]), ..acc })
        }
    } else if args[0] == "--dry-run"@ {
        watch_read(args.skip(1), WatchFlags { dry_run: true, ..acc })
    } else if args[0] == "--verbose"@ {
        watch_read(args.skip(1), WatchFlags { verbose: true, ..acc })
    } else if args[0] == "--log"@ {
        watch_read(args.skip(1), WatchFlags { log: true, ..acc })
    } else {
        Err(unknown("watch"@, args[0]))
    }
}

/// What the arguments of `install` say, over what those before them said.
pub open spec fn install_read(
    args: Seq<Seq<char>>,
    strategy: WatchStrategy,
    group: Option<Seq<char>>,
) -> Result<(WatchStrategy, Option<Seq<char>>), Seq<char>>
    decreases args.len(),
{
    if args.len() == 0 {
        Ok((strategy, group))
    } else if args[0] == "--strategy"@ {
        if args.len() < 2 {
            Err(missing("--strategy"@))
        } else {
            match strategy_of(args[1]) {
                Some(s) => install_read(args.skip(2), s, group),
                None => Err(bad_strategy("install"@, args[1])),
            }
        }
    } else if args[0] == "--group"@ {
        if args.len() < 2 {
            Err(missing("--group"@))
        } else {
            install_read(args.skip(2), strategy, Some(args[1]))
        }
    } else {
        Err(unknown("install"@, args[0]))
    }
}

/// What is wrong with a line and a group taken together: the group line needs a
/// group with a valid name, the suffix line takes none.
pub open spec fn group_error(
    command: Seq<char>,
    strategy: WatchStrategy,
    group: Option<Seq<char>>,
) -> Option<Seq<char>> {
    match (strategy, group) {
        (WatchStrategy::Group, None) => Some(
            "usage: "@ + command + ": --strategy group requires --group <NAME>"@,
        ),
        (WatchStrategy::Ungroup, Some(_)) => Some(
            "usage: "@ + command
                + ": --group is only valid together with --strategy group"@,
        ),
        (WatchStrategy::Group, Some(name)) => if appid::group_name(name) {
            None
        } else {
            Some("usage: "@ + command + ": "@ + appid::group_name_error(name))
        },
        (WatchStrategy::Ungroup, None) => None,
    }
}

/// How `watch` is to run, or what is wrong.
pub open spec fn watch_parsed(args: Seq<Seq<char>>) -> Result<WatchFlags, Seq<char>> {
    match watch_read(args, watch_defaults()) {
        Err(e) => Err(e),
        Ok(f) => match group_error("watch"@, f.strategy, f.group) {
            Some(e) => Err(e),
            None => Ok(f),
        },
    }
}

/// The word for a line.
pub open spec fn strategy_word(s: WatchStrategy) -> Seq<char> {
    match s {
        WatchStrategy::Ungroup => "ungroup"@,
        WatchStrategy::Group => "group"@,
    }
}

/// The arguments with which the program is registered: the watcher along a line,
/// until it is stopped.
pub open spec fn registered_args(strategy: WatchStrategy, group: Option<Seq<char>>) -> Seq<
    Seq<char>,
> {
    let front = seq!["watch"@, "--strategy"@, strategy_word(strategy)];
    (match group {
        Some(name) => front.push("--group"@).push(name),
        None => front,
    }).push("--duration"@).push("0"@)
}

/// The id that `set` gives a window that has the id `before`, or what is wrong.
pub open spec fn set_value(hwnd: usize, mode: SetMode, before: Seq<char>) -> Result<
    Seq<char>,
    Seq<char>,
> {
    match mode {
        SetMode::Suffix => if appid::has_marker(before) {
            Err(
                "set: 0x"@ + num::hex(hwnd as nat) + " already carries the suffix marker '"@
                    + appid::SUFFIX_MARKER@ + "'"@,
            )
        } else {
            Ok(appid::suffixed(before, hwnd))
        },
        SetMode::Value(v) => match appid::value_error(v@) {
            Some(e) => Err("usage: set: invalid --value: "@ + e),
            None => Ok(v@),
        },
    }
}

/// What is said where a suffix leaves no room for the whole id.
pub open spec fn cut_warning(hwnd: usize, before: Seq<char>) -> Seq<char> {
    "set: warning: original AUMID too long, kept "@ + num::decimal(
        appid::head(before, hwnd).len(),
    ) + " chars (UTF-16 budget "@ + num::decimal(appid::room(hwnd) as nat) + ") "@
}

/// What the flags of `pin` say.
#[verifier::ext_equal]
pub struct PinFlags {
    pub group: Option<Seq<char>>,
    pub target: Option<Seq<char>>,
    pub icon: Option<Seq<char>>,
    pub arguments: Option<Seq<char>>,
    pub out: Option<Seq<char>>,
    pub to_taskbar: bool,
}

/// What the arguments of `pin` say, over what those before them said.
pub open spec fn pin_read(args: Seq<Seq<char>>, acc: PinFlags) -> Result<PinFlags, Seq<char>>
    decreases args.len(),
{
    if args.len() == 0 {
        Ok(acc)
    } else if args[0] == "--to-taskbar"@ {
        pin_read(args.skip(1), PinFlags { to_taskbar: true, ..acc })
    } else if args[0] == "--group"@ {
        if args.len() < 2 {
            Err(missing("--group"@))
        } else {
            pin_read(args.skip(2), PinFlags { group: Some(args[1]), ..acc })
        }
    } else if args[0] == "--target"@ {
        if args.len() < 2 {
            Err(missing("--target"@))
        } else {
            pin_read(args.skip(2), PinFlags { target: Some(args[1]), ..acc })
        }
    } else if args[0] == "--icon"@ {
        if args.len() < 2 {
            Err(missing("--icon"@))
        } else {
            pin_read(args.skip(2), PinFlags { icon: Some(args[1]), ..acc })
        }
    } else if args[0] == "--args"@ {
        if args.len() < 2 {
            Err(missing("--args"@))
        } else {
            pin_read(args.skip(2), PinFlags { arguments: Some(args[1]), ..acc })
        }
    } else if args[0] == "--out"@ {
        if args.len() < 2 {
            Err(missing("--out"@))
        } else {
            pin_read(args.skip(2), PinFlags { out: Some(args[1]), ..acc })
        }
    } else {
        Err(unknown("pin"@, args[0]))
    }
}

/// What is wrong with the arguments of `pin` taken together: a group with a valid
/// name and a target must be given, one place at most, and an icon needs a path.
pub open spec fn pin_error(f: PinFlags) -> Option<Seq<char>> {
    if f.group is None {
        Some("usage: pin: --group <NAME> is required"@)
    } else if !appid::group_name(f.group->0) {
        Some("usage: pin: "@ + appid::group_name_error(f.group->0))
    } else if f.target is None {
        Some("usage: pin: --target <PATH> is required"@)
    } else if f.out is Some && f.to_taskbar {
        Some("usage: pin: --out and --to-taskbar are mutually exclusive"@)
    } else if f.icon matches Some(i) && shortcut::icon_parts(i).0.len() == 0 {
        Some("usage: pin: icon path must not be empty"@)
    } else {
        None
    }
}

/// What is said of a path given to `pin` at which there is no file.
pub open spec fn no_file(flag: Seq<char>, path: Seq<char>) -> Seq<char> {
    "usage: "@ + "pin"@ + ": "@ + (flag + " '"@ + path + "' is not an existing file"@)
}

/// Whether arguments of `pin` are what its flags say.
pub open spec fn pin_agrees(a: PinArgs, f: PinFlags) -> bool {
    &&& f.group == Some(a.group@)
    &&& a.aumid@ == appid::group_value(a.group@)
    &&& f.target == Some(a.target@)
    &&& match (a.icon, f.icon) {
        (Some((path, index)), Some(i)) => shortcut::icon_parts(i) == (path@, index as int),
        (None, None) => true,
        _ => false,
    }
    &&& f.arguments == text::opt_text(a.arguments)
    &&& match a.place {
        PinPlace::Default => f.out is None && !f.to_taskbar,
        PinPlace::Directory(d) => f.out == Some(d@),
        PinPlace::Taskbar => f.to_taskbar,
    }
}

/// What the arguments of `unpin` say, over what those before them said.
pub open spec fn unpin_read(args: Seq<Seq<char>>, acc: Option<Seq<char>>) -> Result<
    Option<Seq<char>>,
    Seq<char>,
>
    decreases args.len(),
{
    if args.len() == 0 {
        Ok(acc)
    } else if args[0] == "--group"@ {
        if args.len() < 2 {
            Err(missing("--group"@))
        } else {
            unpin_read(args.skip(2), Some(args[1]))
        }
    } else {
        Err(unknown("unpin"@, args[0]))
    }
}

/// What is wrong with the arguments of `unpin` taken together.
pub open spec fn unpin_error(group: Option<Seq<char>>) -> Option<Seq<char>> {
    match group {
        None => Some("usage: unpin: --group <NAME> is required"@),
        Some(name) => if appid::group_name(name) {
            None
        } else {
            Some("usage: unpin: "@ + appid::group_name_error(name))
        },
    }
}

/// How many of the application windows have ids of a kind.
pub open spec fn marked_count(
    ws: Seq<(usize, WindowFacts)>,
    kind: spec_fn(usize, Result<String, String>) -> bool,
) -> nat
    decreases ws.len(),
{
    if ws.len() == 0 {
        0
    } else {
        let w = ws.last();
        marked_count(ws.drop_last(), kind) + (if w.1.app_window() && kind(w.0, w.1.aumid) {
            1nat
        } else {
            0nat
        })
    }
}

/// Ids with the suffix of their window.
pub open spec fn on_line_1() -> spec_fn(usize, Result<String, String>) -> bool {
    |key: usize, aumid: Result<String, String>|
        aumid matches Ok(a) && appid::stripped(a@, key) is Some
}

/// Ids of a group.
pub open spec fn on_line_2() -> spec_fn(usize, Result<String, String>) -> bool {
    |key: usize, aumid: Result<String, String>|
        aumid matches Ok(a) && appid::stripped(a@, key) is None && appid::is_group(a@)
}

/// Ids that cannot be read.
pub open spec fn not_readable() -> spec_fn(usize, Result<String, String>) -> bool {
    |key: usize, aumid: Result<String, String>| aumid is Err
}

/// What `status` says of windows.
pub open spec fn marked_lines(ws: Seq<(usize, WindowFacts)>) -> Seq<Seq<char>> {
    let a = marked_count(ws, on_line_1());
    let b = marked_count(ws, on_line_2());
    let u = marked_count(ws, not_readable());
    let first = "marked     : line1(ungroup)="@ + num::decimal(a) + " line2(group)="@
        + num::decimal(b) + " (total "@ + num::decimal(a + b) + ")"@;
    if u > 0 {
        seq![
            first,
            "             ("@ + num::decimal(u) + " app window(s) had an unreadable AUMID)"@,
        ]
    } else {
        seq![first]
    }
}

// ---------------------------------------------------------------------------
// Laws
// ---------------------------------------------------------------------------

/// The command that is registered at the start of the session is one that `watch`
/// accepts, and it runs along the line that was chosen until it is stopped.
pub proof fn law_registered_command_is_accepted(
    strategy: WatchStrategy,
    group: Option<Seq<char>>,
)
    requires
        group_error("install"@, strategy, group) is None,
    ensures
        registered_args(strategy, group)[0] == "watch"@,
        command_of(registered_args(strategy, group)) == Command::Watch,
        watch_parsed(registered_args(strategy, group).skip(1)) == Ok::<WatchFlags, Seq<char>>(
            WatchFlags { duration_secs: 0, strategy, group, ..watch_defaults() },
        ),
{
    reveal_strlit("-h");
    reveal_strlit("--help");
    reveal_strlit("-V");
    reveal_strlit("--version");
    reveal_strlit("inspect");
    reveal_strlit("set");
    reveal_strlit("watch");
    reveal_strlit("--strategy");
    reveal_strlit("--duration");
    reveal_strlit("--group");
    reveal_strlit("ungroup");
    reveal_strlit("group");
    reveal_strlit("0");
    let all = registered_args(strategy, group);
    let a = all.skip(1);
    assert("watch"@[0] != '-' && "watch"@[0] != 'i' && "watch"@[0] != 's');
    assert("--strategy"@[2] == 's' && "--duration"@[2] == 'd' && "--group"@[2] == 'g');
    assert("ungroup"@[0] == 'u' && "group"@[0] == 'g');
    let zero = "0"@;
    assert(num::unsigned(zero, 10, u64::MAX as nat) == Some(0nat)) by {
        num::lemma_numeral_round_trip(0, 10, u64::MAX as nat);
        assert(num::decimal(0) =~= zero);
    }
    let d = watch_defaults();
    let f1 = WatchFlags { strategy, ..d };
    let f2 = WatchFlags { strategy, group, ..d };
    let f3 = WatchFlags { duration_secs: 0, strategy, group, ..d };
    let none = Seq::<Seq<char>>::empty();
    let end = seq!["--duration"@, zero];
    assert(end.skip(2) =~= none);
    assert(watch_read(none, f3) == Ok::<WatchFlags, Seq<char>>(f3));
    assert(watch_read(end, f2) == Ok::<WatchFlags, Seq<char>>(f3));
    match group {
        Some(name) => {
            let mid = seq!["--group"@, name, "--duration"@, zero];
            assert(mid.skip(2) =~= end);
            assert(watch_read(mid, f1) == Ok::<WatchFlags, Seq<char>>(f3));
            assert(a.skip(2) =~= mid);
        },
        None => {
            assert(f1 == f2);
            assert(a.skip(2) =~= end);
        },
    }
    assert(watch_read(a, d) == Ok::<WatchFlags, Seq<char>>(f3));
}

/// What starts with the word for wrong usage has its exit code.
proof fn lemma_usage(rest: Seq<char>)
    ensures
        error_code("usage: "@ + rest) == USAGE_EXIT_CODE,
{
    let e = "usage: "@ + rest;
    assert(e.subrange(0, "usage: "@.len() as int) =~= "usage: "@);
}

/// The complaints that the commands share are about wrong usage.
proof fn lemma_complaints(c: Seq<char>, s: Seq<char>)
    ensures
        error_code(missing(s)) == USAGE_EXIT_CODE,
        error_code(unknown(c, s)) == USAGE_EXIT_CODE,
        error_code(bad_handle(c, s)) == USAGE_EXIT_CODE,
        error_code(bad_strategy(c, s)) == USAGE_EXIT_CODE,
        error_code("usage: "@ + c + ": "@ + s) == USAGE_EXIT_CODE,
        error_code("usage: "@ + c + s) == USAGE_EXIT_CODE,
{
    reveal_strlit("usage: ");
    reveal_strlit("usage: missing value for ");
    let u = "usage: "@;
    assert(missing(s) =~= u + ("missing value for "@ + s)) by {
        reveal_strlit("missing value for ");
        assert("usage: missing value for "@ =~= u + "missing value for "@);
    }
    lemma_usage("missing value for "@ + s);
    let a = c + ": unknown argument '"@ + s + "'"@;
    assert(unknown(c, s) =~= u + a);
    lemma_usage(a);
    let h = c + ": "@ + ("invalid HWND '"@ + s + "' (expected hex, e.g. 0x00000000010C12A8)"@);
    assert(bad_handle(c, s) =~= u + h);
    lemma_usage(h);
    let b = c + ": unknown strategy '"@ + s + "' (expected ungroup|group)"@;
    assert(bad_strategy(c, s) =~= u + b);
    lemma_usage(b);
    assert(u + c + ": "@ + s =~= u + (c + ": "@ + s));
    lemma_usage(c + ": "@ + s);
    assert(u + c + s =~= u + (c + s));
    lemma_usage(c + s);
}

/// Wrong usage has an exit code of its own: so does every complaint about the arguments
/// of a command, be it about one of them or about what they say together.
pub proof fn law_usage_errors_exit_with_two(args: Seq<Seq<char>>)
    ensures
        inspect_read(args, InspectArgs { hwnd: None, all: false, json: false }) matches Err(e)
            ==> error_code(e) == 2,
        restore_read(args, RestoreArgs { hwnd: None, dry_run: false }) matches Err(e)
            ==> error_code(e) == 2,
        set_read(args, SetFlags { hwnd: None, suffix: false, value: None }) matches Err(e)
            ==> error_code(e) == 2,
        forall|f: SetFlags| #[trigger] set_error(f) matches Some(e) ==> error_code(e) == 2,
        forall|hwnd: usize, v: String, before: Seq<char>|
            #[trigger] set_value(hwnd, SetMode::Value(v), before) matches Err(e) ==> error_code(e)
                == 2,
        watch_parsed(args) matches Err(e) ==> error_code(e) == 2,
        install_read(args, WatchStrategy::Ungroup, None) matches Err(e) ==> error_code(e) == 2,
        forall|c: Seq<char>, s: WatchStrategy, g: Option<Seq<char>>|
            #[trigger] group_error(c, s, g) matches Some(e) ==> error_code(e) == 2,
        pin_read(
            args,
            PinFlags {
                group: None,
                target: None,
                icon: None,
                arguments: None,
                out: None,
                to_taskbar: false,
            },
        ) matches Err(e) ==> error_code(e) == 2,
        forall|f: PinFlags| #[trigger] pin_error(f) matches Some(e) ==> error_code(e) == 2,
        unpin_read(args, None) matches Err(e) ==> error_code(e) == 2,
        forall|g: Option<Seq<char>>| #[trigger] unpin_error(g) matches Some(e) ==> error_code(e)
            == 2,
        forall|flag: Seq<char>, path: Seq<char>| error_code(#[trigger] no_file(flag, path)) == 2,
        forall|c: Seq<char>, arg: Seq<char>| error_code(#[trigger] unknown(c, arg)) == 2,
{
    lemma_inspect_errors(args, InspectArgs { hwnd: None, all: false, json: false });
    lemma_restore_errors(args, RestoreArgs { hwnd: None, dry_run: false });
    lemma_set_errors(args, SetFlags { hwnd: None, suffix: false, value: None });
    lemma_watch_errors(args, watch_defaults());
    lemma_install_errors(args, WatchStrategy::Ungroup, None);
    lemma_pin_errors(
        args,
        PinFlags {
            group: None,
            target: None,
            icon: None,
            arguments: None,
            out: None,
            to_taskbar: false,
        },
    );
    lemma_unpin_errors(args, None);
    assert forall|c: Seq<char>, arg: Seq<char>| error_code(#[trigger] unknown(c, arg)) == 2 by {
        lemma_complaints(c, arg);
    }
    assert forall|c: Seq<char>, s: WatchStrategy, g: Option<Seq<char>>|
        #[trigger] group_error(c, s, g) is Some implies error_code(group_error(c, s, g)->0)
        == 2 by {
        lemma_complaints(c, ": --strategy group requires --group <NAME>"@);
        lemma_complaints(c, ": --group is only valid together with --strategy group"@);
        if g is Some {
            lemma_complaints(c, appid::group_name_error(g->0));
        }
    }
    assert forall|flag: Seq<char>, path: Seq<char>| error_code(#[trigger] no_file(flag, path))
        == 2 by {
        lemma_complaints("pin"@, flag + " '"@ + path + "' is not an existing file"@);
    }
    lemma_joint_errors();
}

/// The complaints about what the arguments of a command say together.
proof fn lemma_joint_errors()
    ensures
        forall|f: SetFlags| #[trigger] set_error(f) matches Some(e) ==> error_code(e) == 2,
        forall|hwnd: usize, v: String, before: Seq<char>|
            #[trigger] set_value(hwnd, SetMode::Value(v), before) matches Err(e) ==> error_code(e)
                == 2,
        forall|f: PinFlags| #[trigger] pin_error(f) matches Some(e) ==> error_code(e) == 2,
        forall|g: Option<Seq<char>>| #[trigger] unpin_error(g) matches Some(e) ==> error_code(e)
            == 2,
{
    reveal_strlit("usage: ");
    reveal_strlit("usage: set: --hwnd <HEX> is required");
    reveal_strlit("usage: set: exactly one of --suffix / --value is required");
    reveal_strlit("usage: set: invalid --value: ");
    reveal_strlit("usage: pin: --group <NAME> is required");
    reveal_strlit("usage: pin: ");
    reveal_strlit("usage: pin: --target <PATH> is required");
    reveal_strlit("usage: pin: --out and --to-taskbar are mutually exclusive");
    reveal_strlit("usage: pin: icon path must not be empty");
    reveal_strlit("usage: unpin: --group <NAME> is required");
    reveal_strlit("usage: unpin: ");
    assert forall|f: SetFlags| #[trigger] set_error(f) is Some implies error_code(
        set_error(f)->0,
    ) == 2 by {
        assert(set_error(f)->0.subrange(0, 7) =~= "usage: "@);
    }
    assert forall|hwnd: usize, v: String, before: Seq<char>|
        #[trigger] set_value(hwnd, SetMode::Value(v), before) is Err implies error_code(
        set_value(hwnd, SetMode::Value(v), before)->Err_0,
    ) == 2 by {
        let e = set_value(hwnd, SetMode::Value(v), before)->Err_0;
        assert(e.subrange(0, 7) =~= "usage: "@);
    }
    assert forall|f: PinFlags| #[trigger] pin_error(f) is Some implies error_code(
        pin_error(f)->0,
    ) == 2 by {
        assert(pin_error(f)->0.subrange(0, 7) =~= "usage: "@);
    }
    assert forall|g: Option<Seq<char>>| #[trigger] unpin_error(g) is Some implies error_code(
        unpin_error(g)->0,
    ) == 2 by {
        assert(unpin_error(g)->0.subrange(0, 7) =~= "usage: "@);
    }
}

/// The complaints about the arguments of `inspect`, one by one.
proof fn lemma_inspect_errors(args: Seq<Seq<char>>, acc: InspectArgs)
    ensures
        inspect_read(args, acc) matches Err(e) ==> error_code(e) == 2,
    decreases args.len(),
{
    if args.len() > 0 {
        lemma_complaints("inspect"@, args[0]);
        lemma_complaints("inspect"@, "--hwnd"@);
        lemma_inspect_errors(args.skip(1), InspectArgs { all: true, ..acc });
        lemma_inspect_errors(args.skip(1), InspectArgs { json: true, ..acc });
        if args.len() > 1 {
            lemma_complaints("inspect"@, args[1]);
            if winutil::hwnd_of(args[1]) is Some {
                lemma_inspect_errors(
                    args.skip(2),
                    InspectArgs { hwnd: winutil::hwnd_of(args[1]), ..acc },
                );
            }
        }
    }
}

/// The complaints about the arguments of `restore`, one by one.
proof fn lemma_restore_errors(args: Seq<Seq<char>>, acc: RestoreArgs)
    ensures
        restore_read(args, acc) matches Err(e) ==> error_code(e) == 2,
    decreases args.len(),
{
    if args.len() > 0 {
        lemma_complaints("restore"@, args[0]);
        lemma_complaints("restore"@, "--hwnd"@);
        lemma_restore_errors(args.skip(1), RestoreArgs { dry_run: true, ..acc });
        if args.len() > 1 {
            lemma_complaints("restore"@, args[1]);
            if winutil::hwnd_of(args[1]) is Some {
                lemma_restore_errors(
                    args.skip(2),
                    RestoreArgs { hwnd: winutil::hwnd_of(args[1]), ..acc },
                );
            }
        }
    }
}

/// The complaints about the arguments of `set`, one by one.
proof fn lemma_set_errors(args: Seq<Seq<char>>, acc: SetFlags)
    ensures
        set_read(args, acc) matches Err(e) ==> error_code(e) == 2,
    decreases args.len(),
{
    if args.len() > 0 {
        lemma_complaints("set"@, args[0]);
        lemma_complaints("set"@, "--hwnd"@);
        lemma_complaints("set"@, "--value"@);
        lemma_set_errors(args.skip(1), SetFlags { suffix: true, ..acc });
        if args.len() > 1 {
            lemma_complaints("set"@, args[1]);
            lemma_set_errors(args.skip(2), SetFlags { value: Some(args[1]), ..acc });
            if winutil::hwnd_of(args[1]) is Some {
                lemma_set_errors(
                    args.skip(2),
                    SetFlags { hwnd: winutil::hwnd_of(args[1]), ..acc },
                );
            }
        }
    }
}

/// The complaints about the arguments of `watch`, one by one.
proof fn lemma_watch_errors(args: Seq<Seq<char>>, acc: WatchFlags)
    ensures
        watch_read(args, acc) matches Err(e) ==> error_code(e) == 2,
    decreases args.len(),
{
    if args.len() > 0 {
        lemma_complaints("watch"@, args[0]);
        lemma_complaints("watch"@, "--duration"@);
        lemma_complaints("watch"@, "--strategy"@);
        lemma_complaints("watch"@, "--group"@);
        lemma_watch_errors(args.skip(1), WatchFlags { dry_run: true, ..acc });
        lemma_watch_errors(args.skip(1), WatchFlags { verbose: true, ..acc });
        lemma_watch_errors(args.skip(1), WatchFlags { log: true, ..acc });
        if args.len() > 1 {
            lemma_complaints("watch"@, args[1]);
            lemma_watch_errors(args.skip(2), WatchFlags { group: Some(args[1]), ..acc });
            if strategy_of(args[1]) is Some {
                lemma_watch_errors(
                    args.skip(2),
                    WatchFlags { strategy: strategy_of(args[1])->0, ..acc },
                );
            }
            if num::unsigned(args[1], 10, u64::MAX as nat) is Some {
                lemma_watch_errors(
                    args.skip(2),
                    WatchFlags {
                        duration_secs: num::unsigned(args[1], 10, u64::MAX as nat)->0 as u64,
                        ..acc
                    },
                );
            }
            reveal_strlit("usage: ");
            reveal_strlit("usage: watch: invalid duration '");
            let e = "usage: watch: invalid duration '"@ + args[1] + "' (expected seconds)"@;
            assert(e.subrange(0, 7) =~= "usage: "@);
        }
    }
}

/// The complaints about the arguments of `install`, one by one.
proof fn lemma_install_errors(
    args: Seq<Seq<char>>,
    strategy: WatchStrategy,
    group: Option<Seq<char>>,
)
    ensures
        install_read(args, strategy, group) matches Err(e) ==> error_code(e) == 2,
    decreases args.len(),
{
    if args.len() > 0 {
        lemma_complaints("install"@, args[0]);
        lemma_complaints("install"@, "--strategy"@);
        lemma_complaints("install"@, "--group"@);
        if args.len() > 1 {
            lemma_complaints("install"@, args[1]);
            lemma_install_errors(args.skip(2), strategy, Some(args[1]));
            if strategy_of(args[1]) is Some {
                lemma_install_errors(args.skip(2), strategy_of(args[1])->0, group);
            }
        }
    }
}

/// The complaints about the arguments of `pin`, one by one.
proof fn lemma_pin_errors(args: Seq<Seq<char>>, acc: PinFlags)
    ensures
        pin_read(args, acc) matches Err(e) ==> error_code(e) == 2,
    decreases args.len(),
{
    if args.len() > 0 {
        lemma_complaints("pin"@, args[0]);
        lemma_complaints("pin"@, "--group"@);
        lemma_complaints("pin"@, "--target"@);
        lemma_complaints("pin"@, "--icon"@);
        lemma_complaints("pin"@, "--args"@);
        lemma_complaints("pin"@, "--out"@);
        lemma_pin_errors(args.skip(1), PinFlags { to_taskbar: true, ..acc });
        if args.len() > 1 {
            lemma_pin_errors(args.skip(2), PinFlags { group: Some(args[1]), ..acc });
            lemma_pin_errors(args.skip(2), PinFlags { target: Some(args[1]), ..acc });
            lemma_pin_errors(args.skip(2), PinFlags { icon: Some(args[1]), ..acc });
            lemma_pin_errors(args.skip(2), PinFlags { arguments: Some(args[1]), ..acc });
            lemma_pin_errors(args.skip(2), PinFlags { out: Some(args[1]), ..acc });
        }
    }
}

/// The complaints about the arguments of `unpin`, one by one.
proof fn lemma_unpin_errors(args: Seq<Seq<char>>, acc: Option<Seq<char>>)
    ensures
        unpin_read(args, acc) matches Err(e) ==> error_code(e) == 2,
    decreases args.len(),
{
    if args.len() > 0 {
        lemma_complaints("unpin"@, args[0]);
        lemma_complaints("unpin"@, "--group"@);
        if args.len() > 1 {
            lemma_unpin_errors(args.skip(2), Some(args[1]));
        }
    }
}

/// A flag with its value, if it has one.
#[verifier::ext_equal]
pub struct Flag {
    pub word: Seq<char>,
    pub value: Option<Seq<char>>,
}

/// The arguments that flags are given by: each word, and its value behind it.
pub open spec fn words(flags: Seq<Flag>) -> Seq<Seq<char>>
    decreases flags.len(),
{
    if flags.len() == 0 {
        Seq::empty()
    } else {
        (match flags[0].value {
            Some(v) => seq![flags[0].word, v],
            None => seq![flags[0].word],
        }) + words(flags.skip(1))
    }
}

/// Whether a word is among the flags.
pub open spec fn given(flags: Seq<Flag>, word: Seq<char>) -> bool {
    exists|i: int| 0 <= i < flags.len() && (#[trigger] flags[i]).word == word
}

/// The value of a word where it is given last.
pub open spec fn last_value(flags: Seq<Flag>, word: Seq<char>) -> Option<Seq<char>>
    decreases flags.len(),
{
    if flags.len() == 0 {
        None
    } else if flags.last().word == word {
        flags.last().value
    } else {
        last_value(flags.drop_last(), word)
    }
}

/// The window that flags name: the one that is named last.
pub open spec fn named_window(flags: Seq<Flag>) -> Option<usize> {
    match last_value(flags, "--hwnd"@) {
        Some(v) => winutil::hwnd_of(v),
        None => None,
    }
}

/// A flag before others: whether a word is among them, and its last value.
proof fn lemma_flag_front(flags: Seq<Flag>, word: Seq<char>)
    requires
        flags.len() > 0,
    ensures
        given(flags, word) <==> flags[0].word == word || given(flags.skip(1), word),
        last_value(flags, word) == (if given(flags.skip(1), word) {
            last_value(flags.skip(1), word)
        } else if flags[0].word == word {
            flags[0].value
        } else {
            None
        }),
        !given(flags, word) ==> last_value(flags, word) is None,
    decreases flags.len(),
{
    let r = flags.skip(1);
    if given(flags, word) {
        let i = choose|i: int| 0 <= i < flags.len() && (#[trigger] flags[i]).word == word;
        if i > 0 {
            assert(r[i - 1].word == word);
        }
    }
    if given(r, word) {
        let i = choose|i: int| 0 <= i < r.len() && (#[trigger] r[i]).word == word;
        assert(flags[i + 1].word == word);
    }
    assert(flags[0].word == word ==> given(flags, word));
    if flags.len() > 1 {
        let d = flags.drop_last();
        lemma_flag_front(d, word);
        assert(d.skip(1) =~= r.drop_last());
        assert(flags.last() == r.last());
        assert(d[0] == flags[0]);
        if given(r, word) && r.last().word != word {
            let i = choose|i: int| 0 <= i < r.len() && (#[trigger] r[i]).word == word;
            assert(r.drop_last()[i].word == word);
        }
        if given(r.drop_last(), word) {
            let i = choose|i: int|
                0 <= i < r.drop_last().len() && (#[trigger] r.drop_last()[i]).word == word;
            assert(r[i].word == word);
        }
        if r.last().word == word {
            assert(r[r.len() - 1].word == word);
        }
    } else {
        assert(flags.last() == flags[0]);
        assert(flags.drop_last() =~= Seq::<Flag>::empty());
        assert(last_value(flags.drop_last(), word) is None);
    }
}

/// The arguments of a flag before others, and of what follows.
proof fn lemma_words_front(flags: Seq<Flag>, tail: Seq<Seq<char>>)
    requires
        flags.len() > 0,
    ensures
        ({
            let all = words(flags) + tail;
            let rest = words(flags.skip(1)) + tail;
            &&& all[0] == flags[0].word
            &&& flags[0].value matches Some(v) ==> all.len() >= 2 && all[1] == v && all.skip(2)
                == rest
            &&& flags[0].value is None ==> all.len() >= 1 && all.skip(1) == rest
        }),
{
    let all = words(flags) + tail;
    let rest = words(flags.skip(1)) + tail;
    match flags[0].value {
        Some(v) => {
            assert(all.skip(2) =~= rest);
        },
        None => {
            assert(all.skip(1) =~= rest);
        },
    }
}

/// A flag put before others: its arguments come first.
proof fn lemma_words_more(f: Flag, flags: Seq<Flag>)
    ensures
        words(seq![f] + flags) == (match f.value {
            Some(v) => seq![f.word, v],
            None => seq![f.word],
        }) + words(flags),
{
    assert((seq![f] + flags).skip(1) =~= flags);
}

/// The words of flags, told apart by their lengths and their first letters.
proof fn lemma_flag_words()
    ensures
        "--hwnd"@.len() == 6 && "--hwnd"@[2] == 'h',
        "--all"@.len() == 5 && "--all"@[2] == 'a',
        "--json"@.len() == 6 && "--json"@[2] == 'j',
        "--dry-run"@.len() == 9 && "--dry-run"@[2] == 'd',
        "--suffix"@.len() == 8 && "--suffix"@[2] == 's',
        "--value"@.len() == 7 && "--value"@[2] == 'v',
        "--duration"@.len() == 10 && "--duration"@[2] == 'd',
        "--strategy"@.len() == 10 && "--strategy"@[2] == 's',
        "--group"@.len() == 7 && "--group"@[2] == 'g',
        "--verbose"@.len() == 9 && "--verbose"@[2] == 'v',
        "--log"@.len() == 5 && "--log"@[2] == 'l',
        "--to-taskbar"@.len() == 12 && "--to-taskbar"@[2] == 't',
        "--target"@.len() == 8 && "--target"@[2] == 't',
        "--icon"@.len() == 6 && "--icon"@[2] == 'i',
        "--args"@.len() == 6 && "--args"@[2] == 'a',
        "--out"@.len() == 5 && "--out"@[2] == 'o',
{
    reveal_strlit("--hwnd");
    reveal_strlit("--all");
    reveal_strlit("--json");
    reveal_strlit("--dry-run");
    reveal_strlit("--suffix");
    reveal_strlit("--value");
    reveal_strlit("--duration");
    reveal_strlit("--strategy");
    reveal_strlit("--group");
    reveal_strlit("--verbose");
    reveal_strlit("--log");
    reveal_strlit("--to-taskbar");
    reveal_strlit("--target");
    reveal_strlit("--icon");
    reveal_strlit("--args");
    reveal_strlit("--out");
}

/// A word that is not among the flags has no last value.
proof fn lemma_last_value_of(flags: Seq<Flag>, word: Seq<char>)
    ensures
        !given(flags, word) ==> last_value(flags, word) is None,
{
    if flags.len() > 0 {
        lemma_flag_front(flags, word);
    }
}

/// A word that is always given with a value has a last one where it is given.
proof fn lemma_given_value(flags: Seq<Flag>, word: Seq<char>)
    requires
        forall|i: int|
            0 <= i < flags.len() && (#[trigger] flags[i]).word == word ==> flags[i].value is Some,
    ensures
        given(flags, word) ==> last_value(flags, word) is Some,
    decreases flags.len(),
{
    if flags.len() > 0 {
        let d = flags.drop_last();
        assert forall|i: int| 0 <= i < d.len() && (#[trigger] d[i]).word == word implies d[i].value is Some by {
            assert(d[i] == flags[i]);
        }
        lemma_given_value(d, word);
        if given(flags, word) && flags.last().word != word {
            let i = choose|i: int| 0 <= i < flags.len() && (#[trigger] flags[i]).word == word;
            assert(d[i].word == word);
        }
        if flags.last().word == word {
            assert(flags[flags.len() - 1].word == word);
        }
    }
}

/// Whether a flag is one of `inspect`, with a value that it can have.
pub open spec fn inspect_flag(f: Flag) -> bool {
    match f.value {
        None => f.word == "--all"@ || f.word == "--json"@,
        Some(v) => (f.word == "--hwnd"@ && winutil::hwnd_of(v) is Some),
    }
}

/// Whether all flags are some of `inspect`.
pub open spec fn inspect_flags(flags: Seq<Flag>) -> bool {
    forall|i: int| 0 <= i < flags.len() ==> inspect_flag(#[trigger] flags[i])
}

/// Flags of `inspect` before further arguments are read as such.
proof fn lemma_inspect_flags(flags: Seq<Flag>, tail: Seq<Seq<char>>, acc: InspectArgs)
    requires
        inspect_flags(flags),
    ensures
        inspect_read(words(flags) + tail, acc) == inspect_read(
            tail,
            InspectArgs { hwnd: if given(flags, "--hwnd"@) {
                winutil::hwnd_of(last_value(flags, "--hwnd"@)->0)
            } else {
                acc.hwnd
            }, all: acc.all || given(flags, "--all"@), json: acc.json || given(flags, "--json"@) },
        ),
    decreases flags.len(),
{
    lemma_flag_words();
    if flags.len() == 0 {
        assert(words(flags) + tail =~= tail);
    } else {
        let f = flags[0];
        let r = flags.skip(1);
        lemma_words_front(flags, tail);
        assert(inspect_flag(flags[0]));
        assert forall|i: int| 0 <= i < r.len() implies inspect_flag(#[trigger] r[i]) by {
            assert(r[i] == flags[i + 1]);
        }
        lemma_flag_front(flags, "--hwnd"@);
        lemma_flag_front(flags, "--all"@);
        lemma_flag_front(flags, "--json"@);
        if f.word == "--hwnd"@ {
            lemma_inspect_flags(r, tail, InspectArgs { hwnd: winutil::hwnd_of(f.value->0), all: acc.all, json: acc.json });
        }         else if f.word == "--all"@ {
            lemma_inspect_flags(r, tail, InspectArgs { hwnd: acc.hwnd, all: true, json: acc.json });
        }         else if f.word == "--json"@ {
            lemma_inspect_flags(r, tail, InspectArgs { hwnd: acc.hwnd, all: acc.all, json: true });
        }
    }
}

/// The arguments of `inspect`: the window is the one named last, and the two switches are on
/// exactly where they are given. A value that is missing or is no handle, and an argument that
/// is no flag, are complained about.
pub proof fn law_inspect_arguments(flags: Seq<Flag>, x: Seq<char>, rest: Seq<Seq<char>>)
    requires
        inspect_flags(flags),
    ensures
        inspect_read(words(flags), InspectArgs { hwnd: None, all: false, json: false }) == Ok::<InspectArgs, Seq<char>>(
            InspectArgs {
                hwnd: named_window(flags),
                all: given(flags, "--all"@),
                json: given(flags, "--json"@),
            },
        ),
        inspect_read(words(flags) + seq!["--hwnd"@], InspectArgs { hwnd: None, all: false, json: false }) == Err::<InspectArgs, Seq<char>>(
            "usage: missing value for "@ + "--hwnd"@,
        ),
        !(winutil::hwnd_of(x) is Some) ==> inspect_read(words(flags) + (seq!["--hwnd"@, x] + rest), InspectArgs { hwnd: None, all: false, json: false }) == Err::<InspectArgs, Seq<char>>(
            "usage: "@ + "inspect"@ + ": "@ + ("invalid HWND '"@ + x + "' (expected hex, e.g. 0x00000000010C12A8)"@),
        ),
        x != "--hwnd"@ && x != "--all"@ && x != "--json"@ ==> inspect_read(words(flags) + (seq![x] + rest), InspectArgs { hwnd: None, all: false, json: false }) == Err::<InspectArgs, Seq<char>>(
            "usage: "@ + "inspect"@ + ": unknown argument '"@ + x + "'"@,
        ),
{
    lemma_flag_words();
    let none = Seq::<Seq<char>>::empty();
    assert(words(flags) + none =~= words(flags));
    lemma_inspect_flags(flags, none, InspectArgs { hwnd: None, all: false, json: false });
    lemma_inspect_flags(flags, seq![x] + rest, InspectArgs { hwnd: None, all: false, json: false });
    assert((seq![x] + rest)[0] == x);
    lemma_last_value_of(flags, "--hwnd"@);
    assert forall|i: int| 0 <= i < flags.len() && (#[trigger] flags[i]).word == "--hwnd"@ implies flags[i].value is Some by {
        assert(inspect_flag(flags[i]));
    }
    lemma_given_value(flags, "--hwnd"@);
    lemma_last_value_of(flags, "--all"@);
    lemma_last_value_of(flags, "--json"@);
    lemma_inspect_flags(flags, seq!["--hwnd"@], InspectArgs { hwnd: None, all: false, json: false });
    lemma_inspect_flags(flags, seq!["--hwnd"@, x] + rest, InspectArgs { hwnd: None, all: false, json: false });
    assert((seq!["--hwnd"@, x] + rest)[0] == "--hwnd"@);
    assert((seq!["--hwnd"@, x] + rest)[1] == x);
}

/// Nothing but flags of `inspect` is accepted by it.
pub proof fn law_inspect_accepts_only_flags(args: Seq<Seq<char>>, acc: InspectArgs)
    ensures
        inspect_read(args, acc) is Ok ==> exists|flags: Seq<Flag>|
            inspect_flags(flags) && args == #[trigger] words(flags),
    decreases args.len(),
{
    if args.len() == 0 {
        let none = Seq::<Flag>::empty();
        assert(inspect_flags(none) && args =~= words(none));
    } else if inspect_read(args, acc) is Ok {
        lemma_flag_words();
        if args[0] == "--hwnd"@ {
            law_inspect_accepts_only_flags(args.skip(2), InspectArgs { hwnd: winutil::hwnd_of(args[1]), all: acc.all, json: acc.json });
            lemma_inspect_one_more(args, Flag { word: args[0], value: Some(args[1]) });
        }         else if args[0] == "--all"@ {
            law_inspect_accepts_only_flags(args.skip(1), InspectArgs { hwnd: acc.hwnd, all: true, json: acc.json });
            lemma_inspect_one_more(args, Flag { word: args[0], value: None });
        }         else if args[0] == "--json"@ {
            law_inspect_accepts_only_flags(args.skip(1), InspectArgs { hwnd: acc.hwnd, all: acc.all, json: true });
            lemma_inspect_one_more(args, Flag { word: args[0], value: None });
        }
    }
}

/// A flag of `inspect` before arguments that are such flags.
proof fn lemma_inspect_one_more(args: Seq<Seq<char>>, f: Flag)
    requires
        inspect_flag(f),
        args.len() >= 1,
        f.word == args[0],
        f.value matches Some(v) ==> args.len() >= 2 && v == args[1],
        exists|flags: Seq<Flag>|
            inspect_flags(flags) && args.skip(
                if f.value is Some {
                    2
                } else {
                    1
                },
            ) == #[trigger] words(flags),
    ensures
        exists|flags: Seq<Flag>| inspect_flags(flags) && args == #[trigger] words(flags),
{
    let n: int = if f.value is Some {
        2
    } else {
        1
    };
    let rest = choose|flags: Seq<Flag>| inspect_flags(flags) && args.skip(n) == #[trigger] words(flags);
    let all = seq![f] + rest;
    lemma_words_more(f, rest);
    assert forall|i: int| 0 <= i < all.len() implies inspect_flag(#[trigger] all[i]) by {
        if i > 0 {
            assert(all[i] == rest[i - 1]);
        }
    }
    assert(args =~= words(all));
}

/// Whether a flag is one of `restore`, with a value that it can have.
pub open spec fn restore_flag(f: Flag) -> bool {
    match f.value {
        None => f.word == "--dry-run"@,
        Some(v) => (f.word == "--hwnd"@ && winutil::hwnd_of(v) is Some),
    }
}

/// Whether all flags are some of `restore`.
pub open spec fn restore_flags(flags: Seq<Flag>) -> bool {
    forall|i: int| 0 <= i < flags.len() ==> restore_flag(#[trigger] flags[i])
}

/// Flags of `restore` before further arguments are read as such.
proof fn lemma_restore_flags(flags: Seq<Flag>, tail: Seq<Seq<char>>, acc: RestoreArgs)
    requires
        restore_flags(flags),
    ensures
        restore_read(words(flags) + tail, acc) == restore_read(
            tail,
            RestoreArgs { hwnd: if given(flags, "--hwnd"@) {
                winutil::hwnd_of(last_value(flags, "--hwnd"@)->0)
            } else {
                acc.hwnd
            }, dry_run: acc.dry_run || given(flags, "--dry-run"@) },
        ),
    decreases flags.len(),
{
    lemma_flag_words();
    if flags.len() == 0 {
        assert(words(flags) + tail =~= tail);
    } else {
        let f = flags[0];
        let r = flags.skip(1);
        lemma_words_front(flags, tail);
        assert(restore_flag(flags[0]));
        assert forall|i: int| 0 <= i < r.len() implies restore_flag(#[trigger] r[i]) by {
            assert(r[i] == flags[i + 1]);
        }
        lemma_flag_front(flags, "--hwnd"@);
        lemma_flag_front(flags, "--dry-run"@);
        if f.word == "--hwnd"@ {
            lemma_restore_flags(r, tail, RestoreArgs { hwnd: winutil::hwnd_of(f.value->0), dry_run: acc.dry_run });
        }         else if f.word == "--dry-run"@ {
            lemma_restore_flags(r, tail, RestoreArgs { hwnd: acc.hwnd, dry_run: true });
        }
    }
}

/// The arguments of `restore`: the window is the one named last, and the run is a dry one
/// exactly where that is asked for.
pub proof fn law_restore_arguments(flags: Seq<Flag>, x: Seq<char>, rest: Seq<Seq<char>>)
    requires
        restore_flags(flags),
    ensures
        restore_read(words(flags), RestoreArgs { hwnd: None, dry_run: false }) == Ok::<RestoreArgs, Seq<char>>(
            RestoreArgs { hwnd: named_window(flags), dry_run: given(flags, "--dry-run"@) },
        ),
        restore_read(words(flags) + seq!["--hwnd"@], RestoreArgs { hwnd: None, dry_run: false }) == Err::<RestoreArgs, Seq<char>>(
            "usage: missing value for "@ + "--hwnd"@,
        ),
        !(winutil::hwnd_of(x) is Some) ==> restore_read(words(flags) + (seq!["--hwnd"@, x] + rest), RestoreArgs { hwnd: None, dry_run: false }) == Err::<RestoreArgs, Seq<char>>(
            "usage: "@ + "restore"@ + ": "@ + ("invalid HWND '"@ + x + "' (expected hex, e.g. 0x00000000010C12A8)"@),
        ),
        x != "--hwnd"@ && x != "--dry-run"@ ==> restore_read(words(flags) + (seq![x] + rest), RestoreArgs { hwnd: None, dry_run: false }) == Err::<RestoreArgs, Seq<char>>(
            "usage: "@ + "restore"@ + ": unknown argument '"@ + x + "'"@,
        ),
{
    lemma_flag_words();
    let none = Seq::<Seq<char>>::empty();
    assert(words(flags) + none =~= words(flags));
    lemma_restore_flags(flags, none, RestoreArgs { hwnd: None, dry_run: false });
    lemma_restore_flags(flags, seq![x] + rest, RestoreArgs { hwnd: None, dry_run: false });
    assert((seq![x] + rest)[0] == x);
    lemma_last_value_of(flags, "--hwnd"@);
    assert forall|i: int| 0 <= i < flags.len() && (#[trigger] flags[i]).word == "--hwnd"@ implies flags[i].value is Some by {
        assert(restore_flag(flags[i]));
    }
    lemma_given_value(flags, "--hwnd"@);
    lemma_last_value_of(flags, "--dry-run"@);
    lemma_restore_flags(flags, seq!["--hwnd"@], RestoreArgs { hwnd: None, dry_run: false });
    lemma_restore_flags(flags, seq!["--hwnd"@, x] + rest, RestoreArgs { hwnd: None, dry_run: false });
    assert((seq!["--hwnd"@, x] + rest)[0] == "--hwnd"@);
    assert((seq!["--hwnd"@, x] + rest)[1] == x);
}

/// Nothing but flags of `restore` is accepted by it.
pub proof fn law_restore_accepts_only_flags(args: Seq<Seq<char>>, acc: RestoreArgs)
    ensures
        restore_read(args, acc) is Ok ==> exists|flags: Seq<Flag>|
            restore_flags(flags) && args == #[trigger] words(flags),
    decreases args.len(),
{
    if args.len() == 0 {
        let none = Seq::<Flag>::empty();
        assert(restore_flags(none) && args =~= words(none));
    } else if restore_read(args, acc) is Ok {
        lemma_flag_words();
        if args[0] == "--hwnd"@ {
            law_restore_accepts_only_flags(args.skip(2), RestoreArgs { hwnd: winutil::hwnd_of(args[1]), dry_run: acc.dry_run });
            lemma_restore_one_more(args, Flag { word: args[0], value: Some(args[1]) });
        }         else if args[0] == "--dry-run"@ {
            law_restore_accepts_only_flags(args.skip(1), RestoreArgs { hwnd: acc.hwnd, dry_run: true });
            lemma_restore_one_more(args, Flag { word: args[0], value: None });
        }
    }
}

/// A flag of `restore` before arguments that are such flags.
proof fn lemma_restore_one_more(args: Seq<Seq<char>>, f: Flag)
    requires
        restore_flag(f),
        args.len() >= 1,
        f.word == args[0],
        f.value matches Some(v) ==> args.len() >= 2 && v == args[1],
        exists|flags: Seq<Flag>|
            restore_flags(flags) && args.skip(
                if f.value is Some {
                    2
                } else {
                    1
                },
            ) == #[trigger] words(flags),
    ensures
        exists|flags: Seq<Flag>| restore_flags(flags) && args == #[trigger] words(flags),
{
    let n: int = if f.value is Some {
        2
    } else {
        1
    };
    let rest = choose|flags: Seq<Flag>| restore_flags(flags) && args.skip(n) == #[trigger] words(flags);
    let all = seq![f] + rest;
    lemma_words_more(f, rest);
    assert forall|i: int| 0 <= i < all.len() implies restore_flag(#[trigger] all[i]) by {
        if i > 0 {
            assert(all[i] == rest[i - 1]);
        }
    }
    assert(args =~= words(all));
}

/// Whether a flag is one of `set`, with a value that it can have.
pub open spec fn set_flag(f: Flag) -> bool {
    match f.value {
        None => f.word == "--suffix"@,
        Some(v) => (f.word == "--hwnd"@ && winutil::hwnd_of(v) is Some) || (f.word == "--value"@),
    }
}

/// Whether all flags are some of `set`.
pub open spec fn set_flags(flags: Seq<Flag>) -> bool {
    forall|i: int| 0 <= i < flags.len() ==> set_flag(#[trigger] flags[i])
}

/// Flags of `set` before further arguments are read as such.
proof fn lemma_set_flags(flags: Seq<Flag>, tail: Seq<Seq<char>>, acc: SetFlags)
    requires
        set_flags(flags),
    ensures
        set_read(words(flags) + tail, acc) == set_read(
            tail,
            SetFlags { hwnd: if given(flags, "--hwnd"@) {
                winutil::hwnd_of(last_value(flags, "--hwnd"@)->0)
            } else {
                acc.hwnd
            }, suffix: acc.suffix || given(flags, "--suffix"@), value: if given(flags, "--value"@) {
                Some(last_value(flags, "--value"@)->0)
            } else {
                acc.value
            } },
        ),
    decreases flags.len(),
{
    lemma_flag_words();
    if flags.len() == 0 {
        assert(words(flags) + tail =~= tail);
    } else {
        let f = flags[0];
        let r = flags.skip(1);
        lemma_words_front(flags, tail);
        assert(set_flag(flags[0]));
        assert forall|i: int| 0 <= i < r.len() implies set_flag(#[trigger] r[i]) by {
            assert(r[i] == flags[i + 1]);
        }
        lemma_flag_front(flags, "--hwnd"@);
        lemma_flag_front(flags, "--suffix"@);
        lemma_flag_front(flags, "--value"@);
        if f.word == "--hwnd"@ {
            lemma_set_flags(r, tail, SetFlags { hwnd: winutil::hwnd_of(f.value->0), suffix: acc.suffix, value: acc.value });
        }         else if f.word == "--suffix"@ {
            lemma_set_flags(r, tail, SetFlags { hwnd: acc.hwnd, suffix: true, value: acc.value });
        }         else if f.word == "--value"@ {
            lemma_set_flags(r, tail, SetFlags { hwnd: acc.hwnd, suffix: acc.suffix, value: Some(f.value->0) });
        }
    }
}

/// The arguments of `set`: the window and the value are those named last, and the suffix is
/// asked for exactly where its flag is given.
pub proof fn law_set_arguments(flags: Seq<Flag>, x: Seq<char>, rest: Seq<Seq<char>>)
    requires
        set_flags(flags),
    ensures
        set_read(words(flags), SetFlags { hwnd: None, suffix: false, value: None }) == Ok::<SetFlags, Seq<char>>(
            SetFlags {
                hwnd: named_window(flags),
                suffix: given(flags, "--suffix"@),
                value: last_value(flags, "--value"@),
            },
        ),
        set_read(words(flags) + seq!["--hwnd"@], SetFlags { hwnd: None, suffix: false, value: None }) == Err::<SetFlags, Seq<char>>(
            "usage: missing value for "@ + "--hwnd"@,
        ),
        !(winutil::hwnd_of(x) is Some) ==> set_read(words(flags) + (seq!["--hwnd"@, x] + rest), SetFlags { hwnd: None, suffix: false, value: None }) == Err::<SetFlags, Seq<char>>(
            "usage: "@ + "set"@ + ": "@ + ("invalid HWND '"@ + x + "' (expected hex, e.g. 0x00000000010C12A8)"@),
        ),
        set_read(words(flags) + seq!["--value"@], SetFlags { hwnd: None, suffix: false, value: None }) == Err::<SetFlags, Seq<char>>(
            "usage: missing value for "@ + "--value"@,
        ),
        x != "--hwnd"@ && x != "--suffix"@ && x != "--value"@ ==> set_read(words(flags) + (seq![x] + rest), SetFlags { hwnd: None, suffix: false, value: None }) == Err::<SetFlags, Seq<char>>(
            "usage: "@ + "set"@ + ": unknown argument '"@ + x + "'"@,
        ),
{
    lemma_flag_words();
    let none = Seq::<Seq<char>>::empty();
    assert(words(flags) + none =~= words(flags));
    lemma_set_flags(flags, none, SetFlags { hwnd: None, suffix: false, value: None });
    lemma_set_flags(flags, seq![x] + rest, SetFlags { hwnd: None, suffix: false, value: None });
    assert((seq![x] + rest)[0] == x);
    lemma_last_value_of(flags, "--hwnd"@);
    assert forall|i: int| 0 <= i < flags.len() && (#[trigger] flags[i]).word == "--hwnd"@ implies flags[i].value is Some by {
        assert(set_flag(flags[i]));
    }
    lemma_given_value(flags, "--hwnd"@);
    lemma_last_value_of(flags, "--suffix"@);
    lemma_last_value_of(flags, "--value"@);
    assert forall|i: int| 0 <= i < flags.len() && (#[trigger] flags[i]).word == "--value"@ implies flags[i].value is Some by {
        assert(set_flag(flags[i]));
    }
    lemma_given_value(flags, "--value"@);
    lemma_set_flags(flags, seq!["--hwnd"@], SetFlags { hwnd: None, suffix: false, value: None });
    lemma_set_flags(flags, seq!["--hwnd"@, x] + rest, SetFlags { hwnd: None, suffix: false, value: None });
    assert((seq!["--hwnd"@, x] + rest)[0] == "--hwnd"@);
    assert((seq!["--hwnd"@, x] + rest)[1] == x);
    lemma_set_flags(flags, seq!["--value"@], SetFlags { hwnd: None, suffix: false, value: None });
}

/// Nothing but flags of `set` is accepted by it.
pub proof fn law_set_accepts_only_flags(args: Seq<Seq<char>>, acc: SetFlags)
    ensures
        set_read(args, acc) is Ok ==> exists|flags: Seq<Flag>|
            set_flags(flags) && args == #[trigger] words(flags),
    decreases args.len(),
{
    if args.len() == 0 {
        let none = Seq::<Flag>::empty();
        assert(set_flags(none) && args =~= words(none));
    } else if set_read(args, acc) is Ok {
        lemma_flag_words();
        if args[0] == "--hwnd"@ {
            law_set_accepts_only_flags(args.skip(2), SetFlags { hwnd: winutil::hwnd_of(args[1]), suffix: acc.suffix, value: acc.value });
            lemma_set_one_more(args, Flag { word: args[0], value: Some(args[1]) });
        }         else if args[0] == "--suffix"@ {
            law_set_accepts_only_flags(args.skip(1), SetFlags { hwnd: acc.hwnd, suffix: true, value: acc.value });
            lemma_set_one_more(args, Flag { word: args[0], value: None });
        }         else if args[0] == "--value"@ {
            law_set_accepts_only_flags(args.skip(2), SetFlags { hwnd: acc.hwnd, suffix: acc.suffix, value: Some(args[1]) });
            lemma_set_one_more(args, Flag { word: args[0], value: Some(args[1]) });
        }
    }
}

/// A flag of `set` before arguments that are such flags.
proof fn lemma_set_one_more(args: Seq<Seq<char>>, f: Flag)
    requires
        set_flag(f),
        args.len() >= 1,
        f.word == args[0],
        f.value matches Some(v) ==> args.len() >= 2 && v == args[1],
        exists|flags: Seq<Flag>|
            set_flags(flags) && args.skip(
                if f.value is Some {
                    2
                } else {
                    1
                },
            ) == #[trigger] words(flags),
    ensures
        exists|flags: Seq<Flag>| set_flags(flags) && args == #[trigger] words(flags),
{
    let n: int = if f.value is Some {
        2
    } else {
        1
    };
    let rest = choose|flags: Seq<Flag>| set_flags(flags) && args.skip(n) == #[trigger] words(flags);
    let all = seq![f] + rest;
    lemma_words_more(f, rest);
    assert forall|i: int| 0 <= i < all.len() implies set_flag(#[trigger] all[i]) by {
        if i > 0 {
            assert(all[i] == rest[i - 1]);
        }
    }
    assert(args =~= words(all));
}

/// Whether a flag is one of `watch`, with a value that it can have.
pub open spec fn watch_flag(f: Flag) -> bool {
    match f.value {
        None => f.word == "--dry-run"@ || f.word == "--verbose"@ || f.word == "--log"@,
        Some(v) => (f.word == "--duration"@ && num::unsigned(v, 10, u64::MAX as nat) is Some) || (f.word == "--strategy"@ && strategy_of(v) is Some) || (f.word == "--group"@),
    }
}

/// Whether all flags are some of `watch`.
pub open spec fn watch_flags(flags: Seq<Flag>) -> bool {
    forall|i: int| 0 <= i < flags.len() ==> watch_flag(#[trigger] flags[i])
}

/// Flags of `watch` before further arguments are read as such.
proof fn lemma_watch_flags(flags: Seq<Flag>, tail: Seq<Seq<char>>, acc: WatchFlags)
    requires
        watch_flags(flags),
    ensures
        watch_read(words(flags) + tail, acc) == watch_read(
            tail,
            WatchFlags { duration_secs: if given(flags, "--duration"@) {
                num::unsigned(last_value(flags, "--duration"@)->0, 10, u64::MAX as nat)->0 as u64
            } else {
                acc.duration_secs
            }, strategy: if given(flags, "--strategy"@) {
                strategy_of(last_value(flags, "--strategy"@)->0)->0
            } else {
                acc.strategy
            }, group: if given(flags, "--group"@) {
                Some(last_value(flags, "--group"@)->0)
            } else {
                acc.group
            }, dry_run: acc.dry_run || given(flags, "--dry-run"@), verbose: acc.verbose || given(flags, "--verbose"@), log: acc.log || given(flags, "--log"@) },
        ),
    decreases flags.len(),
{
    lemma_flag_words();
    if flags.len() == 0 {
        assert(words(flags) + tail =~= tail);
    } else {
        let f = flags[0];
        let r = flags.skip(1);
        lemma_words_front(flags, tail);
        assert(watch_flag(flags[0]));
        assert forall|i: int| 0 <= i < r.len() implies watch_flag(#[trigger] r[i]) by {
            assert(r[i] == flags[i + 1]);
        }
        lemma_flag_front(flags, "--duration"@);
        lemma_flag_front(flags, "--strategy"@);
        lemma_flag_front(flags, "--group"@);
        lemma_flag_front(flags, "--dry-run"@);
        lemma_flag_front(flags, "--verbose"@);
        lemma_flag_front(flags, "--log"@);
        if f.word == "--duration"@ {
            lemma_watch_flags(r, tail, WatchFlags { duration_secs: num::unsigned(f.value->0, 10, u64::MAX as nat)->0 as u64, strategy: acc.strategy, group: acc.group, dry_run: acc.dry_run, verbose: acc.verbose, log: acc.log });
        }         else if f.word == "--strategy"@ {
            lemma_watch_flags(r, tail, WatchFlags { duration_secs: acc.duration_secs, strategy: strategy_of(f.value->0)->0, group: acc.group, dry_run: acc.dry_run, verbose: acc.verbose, log: acc.log });
        }         else if f.word == "--group"@ {
            lemma_watch_flags(r, tail, WatchFlags { duration_secs: acc.duration_secs, strategy: acc.strategy, group: Some(f.value->0), dry_run: acc.dry_run, verbose: acc.verbose, log: acc.log });
        }         else if f.word == "--dry-run"@ {
            lemma_watch_flags(r, tail, WatchFlags { duration_secs: acc.duration_secs, strategy: acc.strategy, group: acc.group, dry_run: true, verbose: acc.verbose, log: acc.log });
        }         else if f.word == "--verbose"@ {
            lemma_watch_flags(r, tail, WatchFlags { duration_secs: acc.duration_secs, strategy: acc.strategy, group: acc.group, dry_run: acc.dry_run, verbose: true, log: acc.log });
        }         else if f.word == "--log"@ {
            lemma_watch_flags(r, tail, WatchFlags { duration_secs: acc.duration_secs, strategy: acc.strategy, group: acc.group, dry_run: acc.dry_run, verbose: acc.verbose, log: true });
        }
    }
}

/// The arguments of `watch`: the time, the line and the group are those named last, a minute
/// along the suffix line where none is, and the switches are on exactly where they are given.
pub proof fn law_watch_arguments(flags: Seq<Flag>, x: Seq<char>, rest: Seq<Seq<char>>)
    requires
        watch_flags(flags),
    ensures
        watch_read(words(flags), watch_defaults()) == Ok::<WatchFlags, Seq<char>>(
            WatchFlags {
                duration_secs: match last_value(flags, "--duration"@) {
                    Some(v) => num::unsigned(v, 10, u64::MAX as nat)->0 as u64,
                    None => 60,
                },
                strategy: match last_value(flags, "--strategy"@) {
                    Some(v) => strategy_of(v)->0,
                    None => WatchStrategy::Ungroup,
                },
                group: last_value(flags, "--group"@),
                dry_run: given(flags, "--dry-run"@),
                verbose: given(flags, "--verbose"@),
                log: given(flags, "--log"@),
            },
        ),
        watch_read(words(flags) + seq!["--duration"@], watch_defaults()) == Err::<WatchFlags, Seq<char>>(
            "usage: missing value for "@ + "--duration"@,
        ),
        !(num::unsigned(x, 10, u64::MAX as nat) is Some) ==> watch_read(words(flags) + (seq!["--duration"@, x] + rest), watch_defaults()) == Err::<WatchFlags, Seq<char>>(
            "usage: watch: invalid duration '"@ + x + "' (expected seconds)"@,
        ),
        watch_read(words(flags) + seq!["--strategy"@], watch_defaults()) == Err::<WatchFlags, Seq<char>>(
            "usage: missing value for "@ + "--strategy"@,
        ),
        !(strategy_of(x) is Some) ==> watch_read(words(flags) + (seq!["--strategy"@, x] + rest), watch_defaults()) == Err::<WatchFlags, Seq<char>>(
            "usage: "@ + "watch"@ + ": unknown strategy '"@ + x + "' (expected ungroup|group)"@,
        ),
        watch_read(words(flags) + seq!["--group"@], watch_defaults()) == Err::<WatchFlags, Seq<char>>(
            "usage: missing value for "@ + "--group"@,
        ),
        x != "--duration"@ && x != "--strategy"@ && x != "--group"@ && x != "--dry-run"@ && x != "--verbose"@ && x != "--log"@ ==> watch_read(words(flags) + (seq![x] + rest), watch_defaults()) == Err::<WatchFlags, Seq<char>>(
            "usage: "@ + "watch"@ + ": unknown argument '"@ + x + "'"@,
        ),
{
    lemma_flag_words();
    let none = Seq::<Seq<char>>::empty();
    assert(words(flags) + none =~= words(flags));
    lemma_watch_flags(flags, none, watch_defaults());
    lemma_watch_flags(flags, seq![x] + rest, watch_defaults());
    assert((seq![x] + rest)[0] == x);
    lemma_last_value_of(flags, "--duration"@);
    assert forall|i: int| 0 <= i < flags.len() && (#[trigger] flags[i]).word == "--duration"@ implies flags[i].value is Some by {
        assert(watch_flag(flags[i]));
    }
    lemma_given_value(flags, "--duration"@);
    lemma_last_value_of(flags, "--strategy"@);
    assert forall|i: int| 0 <= i < flags.len() && (#[trigger] flags[i]).word == "--strategy"@ implies flags[i].value is Some by {
        assert(watch_flag(flags[i]));
    }
    lemma_given_value(flags, "--strategy"@);
    lemma_last_value_of(flags, "--group"@);
    assert forall|i: int| 0 <= i < flags.len() && (#[trigger] flags[i]).word == "--group"@ implies flags[i].value is Some by {
        assert(watch_flag(flags[i]));
    }
    lemma_given_value(flags, "--group"@);
    lemma_last_value_of(flags, "--dry-run"@);
    lemma_last_value_of(flags, "--verbose"@);
    lemma_last_value_of(flags, "--log"@);
    lemma_watch_flags(flags, seq!["--duration"@], watch_defaults());
    lemma_watch_flags(flags, seq!["--duration"@, x] + rest, watch_defaults());
    assert((seq!["--duration"@, x] + rest)[0] == "--duration"@);
    assert((seq!["--duration"@, x] + rest)[1] == x);
    lemma_watch_flags(flags, seq!["--strategy"@], watch_defaults());
    lemma_watch_flags(flags, seq!["--strategy"@, x] + rest, watch_defaults());
    assert((seq!["--strategy"@, x] + rest)[0] == "--strategy"@);
    assert((seq!["--strategy"@, x] + rest)[1] == x);
    lemma_watch_flags(flags, seq!["--group"@], watch_defaults());
}

/// Nothing but flags of `watch` is accepted by it.
pub proof fn law_watch_accepts_only_flags(args: Seq<Seq<char>>, acc: WatchFlags)
    ensures
        watch_read(args, acc) is Ok ==> exists|flags: Seq<Flag>|
            watch_flags(flags) && args == #[trigger] words(flags),
    decreases args.len(),
{
    if args.len() == 0 {
        let none = Seq::<Flag>::empty();
        assert(watch_flags(none) && args =~= words(none));
    } else if watch_read(args, acc) is Ok {
        lemma_flag_words();
        if args[0] == "--duration"@ {
            law_watch_accepts_only_flags(args.skip(2), WatchFlags { duration_secs: num::unsigned(args[1], 10, u64::MAX as nat)->0 as u64, strategy: acc.strategy, group: acc.group, dry_run: acc.dry_run, verbose: acc.verbose, log: acc.log });
            lemma_watch_one_more(args, Flag { word: args[0], value: Some(args[1]) });
        }         else if args[0] == "--strategy"@ {
            law_watch_accepts_only_flags(args.skip(2), WatchFlags { duration_secs: acc.duration_secs, strategy: strategy_of(args[1])->0, group: acc.group, dry_run: acc.dry_run, verbose: acc.verbose, log: acc.log });
            lemma_watch_one_more(args, Flag { word: args[0], value: Some(args[1]) });
        }         else if args[0] == "--group"@ {
            law_watch_accepts_only_flags(args.skip(2), WatchFlags { duration_secs: acc.duration_secs, strategy: acc.strategy, group: Some(args[1]), dry_run: acc.dry_run, verbose: acc.verbose, log: acc.log });
            lemma_watch_one_more(args, Flag { word: args[0], value: Some(args[1]) });
        }         else if args[0] == "--dry-run"@ {
            law_watch_accepts_only_flags(args.skip(1), WatchFlags { duration_secs: acc.duration_secs, strategy: acc.strategy, group: acc.group, dry_run: true, verbose: acc.verbose, log: acc.log });
            lemma_watch_one_more(args, Flag { word: args[0], value: None });
        }         else if args[0] == "--verbose"@ {
            law_watch_accepts_only_flags(args.skip(1), WatchFlags { duration_secs: acc.duration_secs, strategy: acc.strategy, group: acc.group, dry_run: acc.dry_run, verbose: true, log: acc.log });
            lemma_watch_one_more(args, Flag { word: args[0], value: None });
        }         else if args[0] == "--log"@ {
            law_watch_accepts_only_flags(args.skip(1), WatchFlags { duration_secs: acc.duration_secs, strategy: acc.strategy, group: acc.group, dry_run: acc.dry_run, verbose: acc.verbose, log: true });
            lemma_watch_one_more(args, Flag { word: args[0], value: None });
        }
    }
}

/// A flag of `watch` before arguments that are such flags.
proof fn lemma_watch_one_more(args: Seq<Seq<char>>, f: Flag)
    requires
        watch_flag(f),
        args.len() >= 1,
        f.word == args[0],
        f.value matches Some(v) ==> args.len() >= 2 && v == args[1],
        exists|flags: Seq<Flag>|
            watch_flags(flags) && args.skip(
                if f.value is Some {
                    2
                } else {
                    1
                },
            ) == #[trigger] words(flags),
    ensures
        exists|flags: Seq<Flag>| watch_flags(flags) && args == #[trigger] words(flags),
{
    let n: int = if f.value is Some {
        2
    } else {
        1
    };
    let rest = choose|flags: Seq<Flag>| watch_flags(flags) && args.skip(n) == #[trigger] words(flags);
    let all = seq![f] + rest;
    lemma_words_more(f, rest);
    assert forall|i: int| 0 <= i < all.len() implies watch_flag(#[trigger] all[i]) by {
        if i > 0 {
            assert(all[i] == rest[i - 1]);
        }
    }
    assert(args =~= words(all));
}

/// Whether a flag is one of `install`, with a value that it can have.
pub open spec fn install_flag(f: Flag) -> bool {
    match f.value {
        None => false,
        Some(v) => (f.word == "--strategy"@ && strategy_of(v) is Some) || (f.word == "--group"@),
    }
}

/// Whether all flags are some of `install`.
pub open spec fn install_flags(flags: Seq<Flag>) -> bool {
    forall|i: int| 0 <= i < flags.len() ==> install_flag(#[trigger] flags[i])
}

/// Flags of `install` before further arguments are read as such.
proof fn lemma_install_flags(flags: Seq<Flag>, tail: Seq<Seq<char>>, strategy: WatchStrategy, group: Option<Seq<char>>)
    requires
        install_flags(flags),
    ensures
        install_read(words(flags) + tail, strategy, group) == install_read(
            tail,
            if given(flags, "--strategy"@) {
                strategy_of(last_value(flags, "--strategy"@)->0)->0
            } else {
                strategy
            },
            if given(flags, "--group"@) {
                Some(last_value(flags, "--group"@)->0)
            } else {
                group
            },
        ),
    decreases flags.len(),
{
    lemma_flag_words();
    if flags.len() == 0 {
        assert(words(flags) + tail =~= tail);
    } else {
        let f = flags[0];
        let r = flags.skip(1);
        lemma_words_front(flags, tail);
        assert(install_flag(flags[0]));
        assert forall|i: int| 0 <= i < r.len() implies install_flag(#[trigger] r[i]) by {
            assert(r[i] == flags[i + 1]);
        }
        lemma_flag_front(flags, "--strategy"@);
        lemma_flag_front(flags, "--group"@);
        if f.word == "--strategy"@ {
            lemma_install_flags(r, tail, strategy_of(f.value->0)->0, group);
        }         else if f.word == "--group"@ {
            lemma_install_flags(r, tail, strategy, Some(f.value->0));
        }
    }
}

/// The arguments of `install`: the line and the group are those named last, and the line is
/// the suffix line where none is.
pub proof fn law_install_arguments(flags: Seq<Flag>, x: Seq<char>, rest: Seq<Seq<char>>)
    requires
        install_flags(flags),
    ensures
        install_read(words(flags), WatchStrategy::Ungroup, None) == Ok::<(WatchStrategy, Option<Seq<char>>), Seq<char>>(
            (
                match last_value(flags, "--strategy"@) {
                    Some(v) => strategy_of(v)->0,
                    None => WatchStrategy::Ungroup,
                },
                last_value(flags, "--group"@),
            ),
        ),
        install_read(words(flags) + seq!["--strategy"@], WatchStrategy::Ungroup, None) == Err::<(WatchStrategy, Option<Seq<char>>), Seq<char>>(
            "usage: missing value for "@ + "--strategy"@,
        ),
        !(strategy_of(x) is Some) ==> install_read(words(flags) + (seq!["--strategy"@, x] + rest), WatchStrategy::Ungroup, None) == Err::<(WatchStrategy, Option<Seq<char>>), Seq<char>>(
            "usage: "@ + "install"@ + ": unknown strategy '"@ + x + "' (expected ungroup|group)"@,
        ),
        install_read(words(flags) + seq!["--group"@], WatchStrategy::Ungroup, None) == Err::<(WatchStrategy, Option<Seq<char>>), Seq<char>>(
            "usage: missing value for "@ + "--group"@,
        ),
        x != "--strategy"@ && x != "--group"@ ==> install_read(words(flags) + (seq![x] + rest), WatchStrategy::Ungroup, None) == Err::<(WatchStrategy, Option<Seq<char>>), Seq<char>>(
            "usage: "@ + "install"@ + ": unknown argument '"@ + x + "'"@,
        ),
{
    lemma_flag_words();
    let none = Seq::<Seq<char>>::empty();
    assert(words(flags) + none =~= words(flags));
    lemma_install_flags(flags, none, WatchStrategy::Ungroup, None);
    lemma_install_flags(flags, seq![x] + rest, WatchStrategy::Ungroup, None);
    assert((seq![x] + rest)[0] == x);
    lemma_last_value_of(flags, "--strategy"@);
    assert forall|i: int| 0 <= i < flags.len() && (#[trigger] flags[i]).word == "--strategy"@ implies flags[i].value is Some by {
        assert(install_flag(flags[i]));
    }
    lemma_given_value(flags, "--strategy"@);
    lemma_last_value_of(flags, "--group"@);
    assert forall|i: int| 0 <= i < flags.len() && (#[trigger] flags[i]).word == "--group"@ implies flags[i].value is Some by {
        assert(install_flag(flags[i]));
    }
    lemma_given_value(flags, "--group"@);
    lemma_install_flags(flags, seq!["--strategy"@], WatchStrategy::Ungroup, None);
    lemma_install_flags(flags, seq!["--strategy"@, x] + rest, WatchStrategy::Ungroup, None);
    assert((seq!["--strategy"@, x] + rest)[0] == "--strategy"@);
    assert((seq!["--strategy"@, x] + rest)[1] == x);
    lemma_install_flags(flags, seq!["--group"@], WatchStrategy::Ungroup, None);
}

/// Nothing but flags of `install` is accepted by it.
pub proof fn law_install_accepts_only_flags(args: Seq<Seq<char>>, strategy: WatchStrategy, group: Option<Seq<char>>)
    ensures
        install_read(args, strategy, group) is Ok ==> exists|flags: Seq<Flag>|
            install_flags(flags) && args == #[trigger] words(flags),
    decreases args.len(),
{
    if args.len() == 0 {
        let none = Seq::<Flag>::empty();
        assert(install_flags(none) && args =~= words(none));
    } else if install_read(args, strategy, group) is Ok {
        lemma_flag_words();
        if args[0] == "--strategy"@ {
            law_install_accepts_only_flags(args.skip(2), strategy_of(args[1])->0, group);
            lemma_install_one_more(args, Flag { word: args[0], value: Some(args[1]) });
        }         else if args[0] == "--group"@ {
            law_install_accepts_only_flags(args.skip(2), strategy, Some(args[1]));
            lemma_install_one_more(args, Flag { word: args[0], value: Some(args[1]) });
        }
    }
}

/// A flag of `install` before arguments that are such flags.
proof fn lemma_install_one_more(args: Seq<Seq<char>>, f: Flag)
    requires
        install_flag(f),
        args.len() >= 1,
        f.word == args[0],
        f.value matches Some(v) ==> args.len() >= 2 && v == args[1],
        exists|flags: Seq<Flag>|
            install_flags(flags) && args.skip(
                if f.value is Some {
                    2
                } else {
                    1
                },
            ) == #[trigger] words(flags),
    ensures
        exists|flags: Seq<Flag>| install_flags(flags) && args == #[trigger] words(flags),
{
    let n: int = if f.value is Some {
        2
    } else {
        1
    };
    let rest = choose|flags: Seq<Flag>| install_flags(flags) && args.skip(n) == #[trigger] words(flags);
    let all = seq![f] + rest;
    lemma_words_more(f, rest);
    assert forall|i: int| 0 <= i < all.len() implies install_flag(#[trigger] all[i]) by {
        if i > 0 {
            assert(all[i] == rest[i - 1]);
        }
    }
    assert(args =~= words(all));
}

/// Whether a flag is one of `pin`, with a value that it can have.
pub open spec fn pin_flag(f: Flag) -> bool {
    match f.value {
        None => f.word == "--to-taskbar"@,
        Some(v) => (f.word == "--group"@) || (f.word == "--target"@) || (f.word == "--icon"@) || (f.word == "--args"@) || (f.word == "--out"@),
    }
}

/// Whether all flags are some of `pin`.
pub open spec fn pin_flags(flags: Seq<Flag>) -> bool {
    forall|i: int| 0 <= i < flags.len() ==> pin_flag(#[trigger] flags[i])
}

/// Flags of `pin` before further arguments are read as such.
proof fn lemma_pin_flags(flags: Seq<Flag>, tail: Seq<Seq<char>>, acc: PinFlags)
    requires
        pin_flags(flags),
    ensures
        pin_read(words(flags) + tail, acc) == pin_read(
            tail,
            PinFlags { to_taskbar: acc.to_taskbar || given(flags, "--to-taskbar"@), group: if given(flags, "--group"@) {
                Some(last_value(flags, "--group"@)->0)
            } else {
                acc.group
            }, target: if given(flags, "--target"@) {
                Some(last_value(flags, "--target"@)->0)
            } else {
                acc.target
            }, icon: if given(flags, "--icon"@) {
                Some(last_value(flags, "--icon"@)->0)
            } else {
                acc.icon
            }, arguments: if given(flags, "--args"@) {
                Some(last_value(flags, "--args"@)->0)
            } else {
                acc.arguments
            }, out: if given(flags, "--out"@) {
                Some(last_value(flags, "--out"@)->0)
            } else {
                acc.out
            } },
        ),
    decreases flags.len(),
{
    lemma_flag_words();
    if flags.len() == 0 {
        assert(words(flags) + tail =~= tail);
    } else {
        let f = flags[0];
        let r = flags.skip(1);
        lemma_words_front(flags, tail);
        assert(pin_flag(flags[0]));
        assert forall|i: int| 0 <= i < r.len() implies pin_flag(#[trigger] r[i]) by {
            assert(r[i] == flags[i + 1]);
        }
        lemma_flag_front(flags, "--to-taskbar"@);
        lemma_flag_front(flags, "--group"@);
        lemma_flag_front(flags, "--target"@);
        lemma_flag_front(flags, "--icon"@);
        lemma_flag_front(flags, "--args"@);
        lemma_flag_front(flags, "--out"@);
        if f.word == "--to-taskbar"@ {
            lemma_pin_flags(r, tail, PinFlags { to_taskbar: true, group: acc.group, target: acc.target, icon: acc.icon, arguments: acc.arguments, out: acc.out });
        }         else if f.word == "--group"@ {
            lemma_pin_flags(r, tail, PinFlags { to_taskbar: acc.to_taskbar, group: Some(f.value->0), target: acc.target, icon: acc.icon, arguments: acc.arguments, out: acc.out });
        }         else if f.word == "--target"@ {
            lemma_pin_flags(r, tail, PinFlags { to_taskbar: acc.to_taskbar, group: acc.group, target: Some(f.value->0), icon: acc.icon, arguments: acc.arguments, out: acc.out });
        }         else if f.word == "--icon"@ {
            lemma_pin_flags(r, tail, PinFlags { to_taskbar: acc.to_taskbar, group: acc.group, target: acc.target, icon: Some(f.value->0), arguments: acc.arguments, out: acc.out });
        }         else if f.word == "--args"@ {
            lemma_pin_flags(r, tail, PinFlags { to_taskbar: acc.to_taskbar, group: acc.group, target: acc.target, icon: acc.icon, arguments: Some(f.value->0), out: acc.out });
        }         else if f.word == "--out"@ {
            lemma_pin_flags(r, tail, PinFlags { to_taskbar: acc.to_taskbar, group: acc.group, target: acc.target, icon: acc.icon, arguments: acc.arguments, out: Some(f.value->0) });
        }
    }
}

/// The arguments of `pin`: each value is the one named last, and the tile goes to the taskbar
/// exactly where that is asked for.
pub proof fn law_pin_arguments(flags: Seq<Flag>, x: Seq<char>, rest: Seq<Seq<char>>)
    requires
        pin_flags(flags),
    ensures
        pin_read(words(flags), PinFlags { group: None, target: None, icon: None, arguments: None, out: None, to_taskbar: false }) == Ok::<PinFlags, Seq<char>>(
            PinFlags {
                group: last_value(flags, "--group"@),
                target: last_value(flags, "--target"@),
                icon: last_value(flags, "--icon"@),
                arguments: last_value(flags, "--args"@),
                out: last_value(flags, "--out"@),
                to_taskbar: given(flags, "--to-taskbar"@),
            },
        ),
        pin_read(words(flags) + seq!["--group"@], PinFlags { group: None, target: None, icon: None, arguments: None, out: None, to_taskbar: false }) == Err::<PinFlags, Seq<char>>(
            "usage: missing value for "@ + "--group"@,
        ),
        pin_read(words(flags) + seq!["--target"@], PinFlags { group: None, target: None, icon: None, arguments: None, out: None, to_taskbar: false }) == Err::<PinFlags, Seq<char>>(
            "usage: missing value for "@ + "--target"@,
        ),
        pin_read(words(flags) + seq!["--icon"@], PinFlags { group: None, target: None, icon: None, arguments: None, out: None, to_taskbar: false }) == Err::<PinFlags, Seq<char>>(
            "usage: missing value for "@ + "--icon"@,
        ),
        pin_read(words(flags) + seq!["--args"@], PinFlags { group: None, target: None, icon: None, arguments: None, out: None, to_taskbar: false }) == Err::<PinFlags, Seq<char>>(
            "usage: missing value for "@ + "--args"@,
        ),
        pin_read(words(flags) + seq!["--out"@], PinFlags { group: None, target: None, icon: None, arguments: None, out: None, to_taskbar: false }) == Err::<PinFlags, Seq<char>>(
            "usage: missing value for "@ + "--out"@,
        ),
        x != "--to-taskbar"@ && x != "--group"@ && x != "--target"@ && x != "--icon"@ && x != "--args"@ && x != "--out"@ ==> pin_read(words(flags) + (seq![x] + rest), PinFlags { group: None, target: None, icon: None, arguments: None, out: None, to_taskbar: false }) == Err::<PinFlags, Seq<char>>(
            "usage: "@ + "pin"@ + ": unknown argument '"@ + x + "'"@,
        ),
{
    lemma_flag_words();
    let none = Seq::<Seq<char>>::empty();
    assert(words(flags) + none =~= words(flags));
    lemma_pin_flags(flags, none, PinFlags { group: None, target: None, icon: None, arguments: None, out: None, to_taskbar: false });
    lemma_pin_flags(flags, seq![x] + rest, PinFlags { group: None, target: None, icon: None, arguments: None, out: None, to_taskbar: false });
    assert((seq![x] + rest)[0] == x);
    lemma_last_value_of(flags, "--to-taskbar"@);
    lemma_last_value_of(flags, "--group"@);
    assert forall|i: int| 0 <= i < flags.len() && (#[trigger] flags[i]).word == "--group"@ implies flags[i].value is Some by {
        assert(pin_flag(flags[i]));
    }
    lemma_given_value(flags, "--group"@);
    lemma_last_value_of(flags, "--target"@);
    assert forall|i: int| 0 <= i < flags.len() && (#[trigger] flags[i]).word == "--target"@ implies flags[i].value is Some by {
        assert(pin_flag(flags[i]));
    }
    lemma_given_value(flags, "--target"@);
    lemma_last_value_of(flags, "--icon"@);
    assert forall|i: int| 0 <= i < flags.len() && (#[trigger] flags[i]).word == "--icon"@ implies flags[i].value is Some by {
        assert(pin_flag(flags[i]));
    }
    lemma_given_value(flags, "--icon"@);
    lemma_last_value_of(flags, "--args"@);
    assert forall|i: int| 0 <= i < flags.len() && (#[trigger] flags[i]).word == "--args"@ implies flags[i].value is Some by {
        assert(pin_flag(flags[i]));
    }
    lemma_given_value(flags, "--args"@);
    lemma_last_value_of(flags, "--out"@);
    assert forall|i: int| 0 <= i < flags.len() && (#[trigger] flags[i]).word == "--out"@ implies flags[i].value is Some by {
        assert(pin_flag(flags[i]));
    }
    lemma_given_value(flags, "--out"@);
    lemma_pin_flags(flags, seq!["--group"@], PinFlags { group: None, target: None, icon: None, arguments: None, out: None, to_taskbar: false });
    lemma_pin_flags(flags, seq!["--target"@], PinFlags { group: None, target: None, icon: None, arguments: None, out: None, to_taskbar: false });
    lemma_pin_flags(flags, seq!["--icon"@], PinFlags { group: None, target: None, icon: None, arguments: None, out: None, to_taskbar: false });
    lemma_pin_flags(flags, seq!["--args"@], PinFlags { group: None, target: None, icon: None, arguments: None, out: None, to_taskbar: false });
    lemma_pin_flags(flags, seq!["--out"@], PinFlags { group: None, target: None, icon: None, arguments: None, out: None, to_taskbar: false });
}

/// Nothing but flags of `pin` is accepted by it.
pub proof fn law_pin_accepts_only_flags(args: Seq<Seq<char>>, acc: PinFlags)
    ensures
        pin_read(args, acc) is Ok ==> exists|flags: Seq<Flag>|
            pin_flags(flags) && args == #[trigger] words(flags),
    decreases args.len(),
{
    if args.len() == 0 {
        let none = Seq::<Flag>::empty();
        assert(pin_flags(none) && args =~= words(none));
    } else if pin_read(args, acc) is Ok {
        lemma_flag_words();
        if args[0] == "--to-taskbar"@ {
            law_pin_accepts_only_flags(args.skip(1), PinFlags { to_taskbar: true, group: acc.group, target: acc.target, icon: acc.icon, arguments: acc.arguments, out: acc.out });
            lemma_pin_one_more(args, Flag { word: args[0], value: None });
        }         else if args[0] == "--group"@ {
            law_pin_accepts_only_flags(args.skip(2), PinFlags { to_taskbar: acc.to_taskbar, group: Some(args[1]), target: acc.target, icon: acc.icon, arguments: acc.arguments, out: acc.out });
            lemma_pin_one_more(args, Flag { word: args[0], value: Some(args[1]) });
        }         else if args[0] == "--target"@ {
            law_pin_accepts_only_flags(args.skip(2), PinFlags { to_taskbar: acc.to_taskbar, group: acc.group, target: Some(args[1]), icon: acc.icon, arguments: acc.arguments, out: acc.out });
            lemma_pin_one_more(args, Flag { word: args[0], value: Some(args[1]) });
        }         else if args[0] == "--icon"@ {
            law_pin_accepts_only_flags(args.skip(2), PinFlags { to_taskbar: acc.to_taskbar, group: acc.group, target: acc.target, icon: Some(args[1]), arguments: acc.arguments, out: acc.out });
            lemma_pin_one_more(args, Flag { word: args[0], value: Some(args[1]) });
        }         else if args[0] == "--args"@ {
            law_pin_accepts_only_flags(args.skip(2), PinFlags { to_taskbar: acc.to_taskbar, group: acc.group, target: acc.target, icon: acc.icon, arguments: Some(args[1]), out: acc.out });
            lemma_pin_one_more(args, Flag { word: args[0], value: Some(args[1]) });
        }         else if args[0] == "--out"@ {
            law_pin_accepts_only_flags(args.skip(2), PinFlags { to_taskbar: acc.to_taskbar, group: acc.group, target: acc.target, icon: acc.icon, arguments: acc.arguments, out: Some(args[1]) });
            lemma_pin_one_more(args, Flag { word: args[0], value: Some(args[1]) });
        }
    }
}

/// A flag of `pin` before arguments that are such flags.
proof fn lemma_pin_one_more(args: Seq<Seq<char>>, f: Flag)
    requires
        pin_flag(f),
        args.len() >= 1,
        f.word == args[0],
        f.value matches Some(v) ==> args.len() >= 2 && v == args[1],
        exists|flags: Seq<Flag>|
            pin_flags(flags) && args.skip(
                if f.value is Some {
                    2
                } else {
                    1
                },
            ) == #[trigger] words(flags),
    ensures
        exists|flags: Seq<Flag>| pin_flags(flags) && args == #[trigger] words(flags),
{
    let n: int = if f.value is Some {
        2
    } else {
        1
    };
    let rest = choose|flags: Seq<Flag>| pin_flags(flags) && args.skip(n) == #[trigger] words(flags);
    let all = seq![f] + rest;
    lemma_words_more(f, rest);
    assert forall|i: int| 0 <= i < all.len() implies pin_flag(#[trigger] all[i]) by {
        if i > 0 {
            assert(all[i] == rest[i - 1]);
        }
    }
    assert(args =~= words(all));
}

/// Whether a flag is one of `unpin`, with a value that it can have.
pub open spec fn unpin_flag(f: Flag) -> bool {
    match f.value {
        None => false,
        Some(v) => (f.word == "--group"@),
    }
}

/// Whether all flags are some of `unpin`.
pub open spec fn unpin_flags(flags: Seq<Flag>) -> bool {
    forall|i: int| 0 <= i < flags.len() ==> unpin_flag(#[trigger] flags[i])
}

/// Flags of `unpin` before further arguments are read as such.
proof fn lemma_unpin_flags(flags: Seq<Flag>, tail: Seq<Seq<char>>, group: Option<Seq<char>>)
    requires
        unpin_flags(flags),
    ensures
        unpin_read(words(flags) + tail, group) == unpin_read(
            tail,
            if given(flags, "--group"@) {
                Some(last_value(flags, "--group"@)->0)
            } else {
                group
            },
        ),
    decreases flags.len(),
{
    lemma_flag_words();
    if flags.len() == 0 {
        assert(words(flags) + tail =~= tail);
    } else {
        let f = flags[0];
        let r = flags.skip(1);
        lemma_words_front(flags, tail);
        assert(unpin_flag(flags[0]));
        assert forall|i: int| 0 <= i < r.len() implies unpin_flag(#[trigger] r[i]) by {
            assert(r[i] == flags[i + 1]);
        }
        lemma_flag_front(flags, "--group"@);
        if f.word == "--group"@ {
            lemma_unpin_flags(r, tail, Some(f.value->0));
        }
    }
}

/// The arguments of `unpin`: the group is the one named last.
pub proof fn law_unpin_arguments(flags: Seq<Flag>, x: Seq<char>, rest: Seq<Seq<char>>)
    requires
        unpin_flags(flags),
    ensures
        unpin_read(words(flags), None) == Ok::<Option<Seq<char>>, Seq<char>>(
            last_value(flags, "--group"@),
        ),
        unpin_read(words(flags) + seq!["--group"@], None) == Err::<Option<Seq<char>>, Seq<char>>(
            "usage: missing value for "@ + "--group"@,
        ),
        x != "--group"@ ==> unpin_read(words(flags) + (seq![x] + rest), None) == Err::<Option<Seq<char>>, Seq<char>>(
            "usage: "@ + "unpin"@ + ": unknown argument '"@ + x + "'"@,
        ),
{
    lemma_flag_words();
    let none = Seq::<Seq<char>>::empty();
    assert(words(flags) + none =~= words(flags));
    lemma_unpin_flags(flags, none, None);
    lemma_unpin_flags(flags, seq![x] + rest, None);
    assert((seq![x] + rest)[0] == x);
    lemma_last_value_of(flags, "--group"@);
    assert forall|i: int| 0 <= i < flags.len() && (#[trigger] flags[i]).word == "--group"@ implies flags[i].value is Some by {
        assert(unpin_flag(flags[i]));
    }
    lemma_given_value(flags, "--group"@);
    lemma_unpin_flags(flags, seq!["--group"@], None);
}

/// Nothing but flags of `unpin` is accepted by it.
pub proof fn law_unpin_accepts_only_flags(args: Seq<Seq<char>>, group: Option<Seq<char>>)
    ensures
        unpin_read(args, group) is Ok ==> exists|flags: Seq<Flag>|
            unpin_flags(flags) && args == #[trigger] words(flags),
    decreases args.len(),
{
    if args.len() == 0 {
        let none = Seq::<Flag>::empty();
        assert(unpin_flags(none) && args =~= words(none));
    } else if unpin_read(args, group) is Ok {
        lemma_flag_words();
        if args[0] == "--group"@ {
            law_unpin_accepts_only_flags(args.skip(2), Some(args[1]));
            lemma_unpin_one_more(args, Flag { word: args[0], value: Some(args[1]) });
        }
    }
}

/// A flag of `unpin` before arguments that are such flags.
proof fn lemma_unpin_one_more(args: Seq<Seq<char>>, f: Flag)
    requires
        unpin_flag(f),
        args.len() >= 1,
        f.word == args[0],
        f.value matches Some(v) ==> args.len() >= 2 && v == args[1],
        exists|flags: Seq<Flag>|
            unpin_flags(flags) && args.skip(
                if f.value is Some {
                    2
                } else {
                    1
                },
            ) == #[trigger] words(flags),
    ensures
        exists|flags: Seq<Flag>| unpin_flags(flags) && args == #[trigger] words(flags),
{
    let n: int = if f.value is Some {
        2
    } else {
        1
    };
    let rest = choose|flags: Seq<Flag>| unpin_flags(flags) && args.skip(n) == #[trigger] words(flags);
    let all = seq![f] + rest;
    lemma_words_more(f, rest);
    assert forall|i: int| 0 <= i < all.len() implies unpin_flag(#[trigger] all[i]) by {
        if i > 0 {
            assert(all[i] == rest[i - 1]);
        }
    }
    assert(args =~= words(all));
}

/// Each command has its word, and two have a short one too; no argument is the menu, and
/// what is no such word names no command. Further arguments do not matter.
pub proof fn law_commands(x: Seq<char>, rest: Seq<Seq<char>>)
    ensures
        command_of(Seq::empty()) == Command::Menu,
        command_of(seq!["-h"@] + rest) == Command::Help,
        command_of(seq!["--help"@] + rest) == Command::Help,
        command_of(seq!["-V"@] + rest) == Command::Version,
        command_of(seq!["--version"@] + rest) == Command::Version,
        command_of(seq!["inspect"@] + rest) == Command::Inspect,
        command_of(seq!["set"@] + rest) == Command::SetId,
        command_of(seq!["watch"@] + rest) == Command::Watch,
        command_of(seq!["restore"@] + rest) == Command::Restore,
        command_of(seq!["install"@] + rest) == Command::Install,
        command_of(seq!["uninstall"@] + rest) == Command::Uninstall,
        command_of(seq!["status"@] + rest) == Command::Status,
        command_of(seq!["pin"@] + rest) == Command::Pin,
        command_of(seq!["unpin"@] + rest) == Command::Unpin,
        x != "-h"@ && x != "--help"@ && x != "-V"@ && x != "--version"@ && x != "inspect"@ && x != "set"@ && x != "watch"@ && x != "restore"@ && x != "install"@ && x != "uninstall"@ && x != "status"@ && x != "pin"@ && x != "unpin"@
            ==> command_of(seq![x] + rest) == Command::Unknown,
{
    reveal_strlit("-h");
    reveal_strlit("--help");
    reveal_strlit("-V");
    reveal_strlit("--version");
    reveal_strlit("inspect");
    reveal_strlit("set");
    reveal_strlit("watch");
    reveal_strlit("restore");
    reveal_strlit("install");
    reveal_strlit("uninstall");
    reveal_strlit("status");
    reveal_strlit("pin");
    reveal_strlit("unpin");
    assert("-h"@.len() == 2 && "--help"@.len() == 6 && "-V"@.len() == 2 && "--version"@.len() == 9 && "inspect"@.len() == 7 && "set"@.len() == 3 && "watch"@.len() == 5 && "restore"@.len() == 7 && "install"@.len() == 7 && "uninstall"@.len() == 9 && "status"@.len() == 6 && "pin"@.len() == 3 && "unpin"@.len() == 5);
    assert("inspect"@[2] == 's' && "restore"@[0] == 'r' && "install"@[2] == 's' && "install"@[3] == 't' && "inspect"@[3] == 'p');
    assert("set"@[0] == 's' && "pin"@[0] == 'p' && "watch"@[0] == 'w' && "unpin"@[0] == 'u');
    assert("-h"@[1] == 'h' && "-V"@[1] == 'V' && "--help"@[0] == '-' && "status"@[0] == 's' && "--version"@[0] == '-' && "uninstall"@[0] == 'u');
    assert((seq!["-h"@] + rest)[0] == "-h"@);
    assert((seq!["--help"@] + rest)[0] == "--help"@);
    assert((seq!["-V"@] + rest)[0] == "-V"@);
    assert((seq!["--version"@] + rest)[0] == "--version"@);
    assert((seq!["inspect"@] + rest)[0] == "inspect"@);
    assert((seq!["set"@] + rest)[0] == "set"@);
    assert((seq!["watch"@] + rest)[0] == "watch"@);
    assert((seq!["restore"@] + rest)[0] == "restore"@);
    assert((seq!["install"@] + rest)[0] == "install"@);
    assert((seq!["uninstall"@] + rest)[0] == "uninstall"@);
    assert((seq!["status"@] + rest)[0] == "status"@);
    assert((seq!["pin"@] + rest)[0] == "pin"@);
    assert((seq!["unpin"@] + rest)[0] == "unpin"@);
    assert((seq![x] + rest)[0] == x);
}

/// An error exits with two where it begins with the word for wrong usage, and with one else.
pub proof fn law_exit_codes(e: Seq<char>)
    ensures
        (exists|r: Seq<char>| e == #[trigger] ("usage: "@ + r)) ==> error_code(e) == 2,
        !(exists|r: Seq<char>| e == #[trigger] ("usage: "@ + r)) ==> error_code(e) == 1,
{
    text::law_starts_with(e, "usage: "@);
}

/// The two lines have a word each, and no other word names one. The group line goes with a
/// group that has a valid name, the suffix line with none.
pub proof fn law_lines_and_groups(command: Seq<char>, x: Seq<char>, name: Seq<char>)
    ensures
        strategy_of("ungroup"@) == Some(WatchStrategy::Ungroup),
        strategy_of("group"@) == Some(WatchStrategy::Group),
        x != "ungroup"@ && x != "group"@ ==> strategy_of(x) is None,
        group_error(command, WatchStrategy::Ungroup, None) is None,
        group_error(command, WatchStrategy::Ungroup, Some(name)) == Some(
            "usage: "@ + command + ": --group is only valid together with --strategy group"@,
        ),
        group_error(command, WatchStrategy::Group, None) == Some(
            "usage: "@ + command + ": --strategy group requires --group <NAME>"@,
        ),
        appid::group_name(name) ==> group_error(
            command,
            WatchStrategy::Group,
            Some(name),
        ) is None,
        !appid::group_name(name) ==> group_error(command, WatchStrategy::Group, Some(name)) == Some(
            "usage: "@ + command + ": "@ + appid::group_name_error(name),
        ),
{
    reveal_strlit("ungroup");
    reveal_strlit("group");
    assert("ungroup"@.len() != "group"@.len());
}

/// The arguments of `watch` are taken where its flags are and its line and its group go
/// together.
pub proof fn law_watch_is_parsed(args: Seq<Seq<char>>)
    ensures
        match watch_read(args, watch_defaults()) {
            Err(e) => watch_parsed(args) == Err::<WatchFlags, Seq<char>>(e),
            Ok(f) => match group_error("watch"@, f.strategy, f.group) {
                None => watch_parsed(args) == Ok::<WatchFlags, Seq<char>>(f),
                Some(e) => watch_parsed(args) == Err::<WatchFlags, Seq<char>>(e),
            },
        },
{
}

/// The command that is registered names the line, the group where there is one, and no end.
pub proof fn law_registered_args(name: Seq<char>)
    ensures
        registered_args(WatchStrategy::Ungroup, None) == seq![
            "watch"@,
            "--strategy"@,
            "ungroup"@,
            "--duration"@,
            "0"@,
        ],
        registered_args(WatchStrategy::Group, Some(name)) == seq![
            "watch"@,
            "--strategy"@,
            "group"@,
            "--group"@,
            name,
            "--duration"@,
            "0"@,
        ],
{
    assert(registered_args(WatchStrategy::Ungroup, None) =~= seq![
        "watch"@,
        "--strategy"@,
        "ungroup"@,
        "--duration"@,
        "0"@,
    ]);
    assert(registered_args(WatchStrategy::Group, Some(name)) =~= seq![
        "watch"@,
        "--strategy"@,
        "group"@,
        "--group"@,
        name,
        "--duration"@,
        "0"@,
    ]);
}

/// `set` needs a window, and either the suffix or a value, not both.
pub proof fn law_set_needs(f: SetFlags)
    ensures
        set_error(f) is None <==> f.hwnd is Some && (f.suffix <==> f.value is None),
        f.hwnd is None ==> set_error(f) == Some("usage: set: --hwnd <HEX> is required"@),
        f.hwnd is Some && set_error(f) is Some ==> set_error(f) == Some(
            "usage: set: exactly one of --suffix / --value is required"@,
        ),
{
}

/// `set` writes a value as it is given, to every window and over every id, where the value
/// is not empty, not longer than 129 code units and without control characters; else it
/// writes nothing.
pub proof fn law_set_writes_the_value(hwnd: usize, v: String, before: Seq<char>)
    ensures
        ({
            let good = 1 <= utf16::units(v@).len() <= 129 && forall|i: int|
                0 <= i < v@.len() ==> (#[trigger] v@[i] as u32) >= 0x20;
            &&& good ==> set_value(hwnd, SetMode::Value(v), before) == Ok::<Seq<char>, Seq<char>>(
                v@,
            )
            &&& !good ==> (set_value(hwnd, SetMode::Value(v), before) matches Err(e) && exists|
                r: Seq<char>,
            | e == #[trigger] ("usage: set: invalid --value: "@ + r) && appid::value_error(v@)
                == Some(r))
        }),
{
    appid::law_values(v@);
    if appid::value_error(v@) is Some {
        let r = appid::value_error(v@)->0;
        assert("usage: set: invalid --value: "@ + r == "usage: set: invalid --value: "@ + r);
    }
}

/// `set --suffix` writes the id of the window with its suffix, where the id carries no
/// marker yet; what had to be cut off is told by numbers.
pub proof fn law_set_writes_the_suffix(hwnd: usize, before: Seq<char>)
    ensures
        !appid::has_marker(before) ==> set_value(hwnd, SetMode::Suffix, before) == Ok::<
            Seq<char>,
            Seq<char>,
        >(appid::suffixed(before, hwnd)),
        appid::has_marker(before) ==> set_value(hwnd, SetMode::Suffix, before) == Err::<
            Seq<char>,
            Seq<char>,
        >(
            "set: 0x"@ + num::hex(hwnd as nat) + " already carries the suffix marker '"@
                + "~TBG~w"@ + "'"@,
        ),
        cut_warning(hwnd, before) == "set: warning: original AUMID too long, kept "@ + num::decimal(
            appid::head(before, hwnd).len(),
        ) + " chars (UTF-16 budget "@ + num::decimal(
            (129 - 6 - num::hex(hwnd as nat).len()) as nat,
        ) + ") "@,
{
    appid::lemma_room(hwnd);
}

/// `pin` needs a group with a valid name and a target; it takes one place at most, and an
/// icon with a path.
pub proof fn law_pin_needs(f: PinFlags)
    ensures
        pin_error(f) is None <==> {
            &&& f.group matches Some(name) && appid::group_name(name)
            &&& f.target is Some
            &&& f.out is None || !f.to_taskbar
            &&& f.icon matches Some(i) ==> shortcut::icon_parts(i).0.len() > 0
        },
        f.group is None ==> pin_error(f) == Some("usage: pin: --group <NAME> is required"@),
        f.group matches Some(name) ==> !appid::group_name(name) ==> pin_error(f) == Some(
            "usage: pin: "@ + appid::group_name_error(name),
        ),
{
}

/// What `pin` is to do is what its flags say: the id is that of the group, and the tile goes
/// to the directory that is named, to the taskbar, or below the data directory.
pub proof fn law_pin_does_what_its_flags_say(a: PinArgs, f: PinFlags)
    requires
        pin_agrees(a, f),
        pin_error(f) is None,
    ensures
        f.group == Some(a.group@),
        a.aumid@ == "TBG.Group."@ + a.group@,
        f.target == Some(a.target@),
        f.arguments == text::opt_text(a.arguments),
        f.icon is Some <==> a.icon is Some,
        f.icon matches Some(i) ==> (a.icon matches Some((path, index)) && shortcut::icon_parts(i)
            == (path@, index as int)),
        f.to_taskbar <==> a.place is Taskbar,
        f.out is None && !f.to_taskbar <==> a.place is Default,
        f.out matches Some(d) ==> (a.place matches PinPlace::Directory(p) && p@ == d),
{
}

/// `unpin` needs a group with a valid name.
pub proof fn law_unpin_needs(name: Seq<char>)
    ensures
        unpin_error(None) == Some("usage: unpin: --group <NAME> is required"@),
        appid::group_name(name) ==> unpin_error(Some(name)) is None,
        !appid::group_name(name) ==> unpin_error(Some(name)) == Some(
            "usage: unpin: "@ + appid::group_name_error(name),
        ),
{
}

/// Windows are counted one by one: the count of two lists in a row is the sum of their
/// counts, and one window counts as one where it has a button in the taskbar and its id is
/// of the kind, and else as none.
pub proof fn law_windows_are_counted(
    a: Seq<(usize, WindowFacts)>,
    b: Seq<(usize, WindowFacts)>,
    w: (usize, WindowFacts),
    kind: spec_fn(usize, Result<String, String>) -> bool,
)
    ensures
        marked_count(a + b, kind) == marked_count(a, kind) + marked_count(b, kind),
        marked_count(Seq::empty(), kind) == 0,
        marked_count(seq![w], kind) == (if w.1.app_window() && kind(w.0, w.1.aumid) {
            1nat
        } else {
            0
        }),
    decreases b.len(),
{
    assert(seq![w].drop_last() =~= Seq::<(usize, WindowFacts)>::empty());
    assert(marked_count(seq![w].drop_last(), kind) == 0);
    if b.len() == 0 {
        assert(a + b =~= a);
    } else {
        law_windows_are_counted(a, b.drop_last(), w, kind);
        assert((a + b).drop_last() =~= a + b.drop_last());
        assert((a + b).last() == b.last());
    }
}

/// The kinds that are counted: ids with the suffix of their own window, group ids among the
/// others, and ids that cannot be read; the numbers are printed with their sum, the last
/// only where it is not zero.
pub proof fn law_counts_are_printed(ws: Seq<(usize, WindowFacts)>, key: usize, a: String, e: String)
    ensures
        on_line_1()(key, Ok(a)) <==> appid::stripped(a@, key) is Some,
        on_line_2()(key, Ok(a)) <==> appid::stripped(a@, key) is None && appid::is_group(a@),
        !not_readable()(key, Ok(a)),
        !on_line_1()(key, Err(e)) && !on_line_2()(key, Err(e)) && not_readable()(key, Err(e)),
        ({
            let x = marked_count(ws, on_line_1());
            let y = marked_count(ws, on_line_2());
            let u = marked_count(ws, not_readable());
            let first = "marked     : line1(ungroup)="@ + num::decimal(x) + " line2(group)="@
                + num::decimal(y) + " (total "@ + num::decimal(x + y) + ")"@;
            &&& u == 0 ==> marked_lines(ws) == seq![first]
            &&& u > 0 ==> marked_lines(ws) == seq![
                first,
                "             ("@ + num::decimal(u) + " app window(s) had an unreadable AUMID)"@,
            ]
        }),
{
}

// ---------------------------------------------------------------------------
// Functions
// ---------------------------------------------------------------------------

/// Whether an argument is a word.
fn is(arg: &String, word: &str) -> (r: bool)
    ensures
        r == (arg@ == word@),
{
    text::same_text(arg.as_str(), word)
}

/// The command that the arguments of the program name.
pub fn dispatch(args: &[String]) -> (r: Command)
    ensures
        r == command_of(text::texts(args@)),
{
    if args.len() == 0 {
        return Command::Menu;
    }
    let a: &String = &args[0];
    assert(text::texts(args@)[0] == a@);
    if is(a, "-h") || is(a, "--help") {
        Command::Help
    } else if is(a, "-V") || is(a, "--version") {
        Command::Version
    } else if is(a, "inspect") {
        Command::Inspect
    } else if is(a, "set") {
        Command::SetId
    } else if is(a, "watch") {
        Command::Watch
    } else if is(a, "restore") {
        Command::Restore
    } else if is(a, "install") {
        Command::Install
    } else if is(a, "uninstall") {
        Command::Uninstall
    } else if is(a, "status") {
        Command::Status
    } else if is(a, "pin") {
        Command::Pin
    } else if is(a, "unpin") {
        Command::Unpin
    } else {
        Command::Unknown
    }
}

/// What is said of a command that is not known.
pub fn unknown_command(arg: &str) -> (r: String)
    ensures
        r@ == "tbg-lite: unknown command '"@ + arg@ + "' (see --help)"@,
{
    let mut r: String = "tbg-lite: unknown command '".to_owned();
    r.push_str(arg);
    r.push_str("' (see --help)");
    r
}

/// The end of a command: its exit code, and what is said of an error.
pub fn report(result: &Result<(), String>) -> (r: (u8, Option<String>))
    ensures
        match result {
            Ok(()) => r.0 == 0 && r.1 is None,
            Err(e) => r.0 == error_code(e@) && (r.1 matches Some(line) && line@
                == "tbg-lite: error: "@ + e@),
        },
{
    match result {
        Ok(()) => (0, None),
        Err(e) => {
            let mut line: String = "tbg-lite: error: ".to_owned();
            line.push_str(e.as_str());
            if text::has_prefix(e.as_str(), "usage: ") {
                (USAGE_EXIT_CODE, Some(line))
            } else {
                (1, Some(line))
            }
        },
    }
}

/// The value of a flag: the argument at `at`.
pub fn next_arg<'a>(args: &'a [String], at: usize, flag: &str) -> (r: Result<&'a String, String>)
    ensures
        at < args@.len() ==> (r matches Ok(v) && v@ == args@[at as int]@),
        at >= args@.len() ==> (r matches Err(e) && e@ == missing(flag@)),
{
    if at < args.len() {
        Ok(&args[at])
    } else {
        let mut e: String = "usage: missing value for ".to_owned();
        e.push_str(flag);
        Err(e)
    }
}

/// What is said of an argument that a command does not know.
fn unknown_argument(command: &str, arg: &str) -> (r: String)
    ensures
        r@ == unknown(command@, arg@),
{
    let mut e: String = "usage: ".to_owned();
    e.push_str(command);
    e.push_str(": unknown argument '");
    e.push_str(arg);
    e.push_str("'");
    e
}

/// The window that an argument names.
fn handle_arg(command: &str, v: &str) -> (r: Result<usize, String>)
    ensures
        match r {
            Ok(h) => winutil::hwnd_of(v@) == Some(h),
            Err(e) => winutil::hwnd_of(v@) is None && e@ == bad_handle(command@, v@),
        },
{
    match winutil::parse_hwnd(v) {
        Ok(h) => Ok(h),
        Err(w) => {
            let mut e: String = "usage: ".to_owned();
            e.push_str(command);
            e.push_str(": ");
            e.push_str(w.as_str());
            Err(e)
        },
    }
}

/// The texts of arguments from one on, and how they go on.
proof fn lemma_rest(all: Seq<Seq<char>>, i: int)
    requires
        0 <= i < all.len(),
    ensures
        all.skip(i)[0] == all[i],
        all.skip(i).skip(1) == all.skip(i + 1),
        i + 1 < all.len() ==> all.skip(i)[1] == all[i + 1] && all.skip(i).skip(2) == all.skip(
            i + 2,
        ),
        all.skip(i).len() == all.len() - i,
{
    assert(all.skip(i).skip(1) =~= all.skip(i + 1));
    if i + 1 < all.len() {
        assert(all.skip(i).skip(2) =~= all.skip(i + 2));
    }
}

/// The arguments of `inspect`.
pub fn cmd_inspect(args: &[String]) -> (r: Result<InspectArgs, String>)
    ensures
        match r {
            Ok(a) => inspect_read(
                text::texts(args@),
                InspectArgs { hwnd: None, all: false, json: false },
            ) == Ok::<InspectArgs, Seq<char>>(a),
            Err(e) => inspect_read(
                text::texts(args@),
                InspectArgs { hwnd: None, all: false, json: false },
            ) == Err::<InspectArgs, Seq<char>>(e@),
        },
{
    let ghost all = text::texts(args@);
    let n: usize = args.len();
    let mut acc: InspectArgs = InspectArgs { hwnd: None, all: false, json: false };
    let ghost first = acc;
    let mut i: usize = 0;
    assert(all.skip(0) =~= all);
    while i < n
        invariant
            n == args@.len(),
            all == text::texts(args@),
            i <= n,
            first == (InspectArgs { hwnd: None, all: false, json: false }),
            inspect_read(all.skip(i as int), acc) == inspect_read(all, first),
        decreases n - i,
    {
        let a: &String = &args[i];
        proof {
            lemma_rest(all, i as int);
            assert(all[i as int] == a@);
        }
        if is(a, "--hwnd") {
            match next_arg(args, i + 1, "--hwnd") {
                Err(e) => {
                    return Err(e);
                },
                Ok(v) => {
                    assert(all[i + 1] == v@);
                    match handle_arg("inspect", v.as_str()) {
                        Err(e) => {
                            return Err(e);
                        },
                        Ok(h) => {
                            acc = InspectArgs { hwnd: Some(h), all: acc.all, json: acc.json };
                        },
                    }
                },
            }
            i += 2;
        } else if is(a, "--all") {
            acc = InspectArgs { hwnd: acc.hwnd, all: true, json: acc.json };
            i += 1;
        } else if is(a, "--json") {
            acc = InspectArgs { hwnd: acc.hwnd, all: acc.all, json: true };
            i += 1;
        } else {
            return Err(unknown_argument("inspect", a.as_str()));
        }
    }
    assert(all.skip(i as int) =~= Seq::<Seq<char>>::empty());
    Ok(acc)
}

/// The arguments of `restore`.
pub fn cmd_restore(args: &[String]) -> (r: Result<RestoreArgs, String>)
    ensures
        match r {
            Ok(a) => restore_read(
                text::texts(args@),
                RestoreArgs { hwnd: None, dry_run: false },
            ) == Ok::<RestoreArgs, Seq<char>>(a),
            Err(e) => restore_read(
                text::texts(args@),
                RestoreArgs { hwnd: None, dry_run: false },
            ) == Err::<RestoreArgs, Seq<char>>(e@),
        },
{
    let ghost all = text::texts(args@);
    let n: usize = args.len();
    let mut acc: RestoreArgs = RestoreArgs { hwnd: None, dry_run: false };
    let ghost first = acc;
    let mut i: usize = 0;
    assert(all.skip(0) =~= all);
    while i < n
        invariant
            n == args@.len(),
            all == text::texts(args@),
            i <= n,
            first == (RestoreArgs { hwnd: None, dry_run: false }),
            restore_read(all.skip(i as int), acc) == restore_read(all, first),
        decreases n - i,
    {
        let a: &String = &args[i];
        proof {
            lemma_rest(all, i as int);
            assert(all[i as int] == a@);
        }
        if is(a, "--hwnd") {
            match next_arg(args, i + 1, "--hwnd") {
                Err(e) => {
                    return Err(e);
                },
                Ok(v) => {
                    assert(all[i + 1] == v@);
                    match handle_arg("restore", v.as_str()) {
                        Err(e) => {
                            return Err(e);
                        },
                        Ok(h) => {
                            acc = RestoreArgs { hwnd: Some(h), dry_run: acc.dry_run };
                        },
                    }
                },
            }
            i += 2;
        } else if is(a, "--dry-run") {
            acc = RestoreArgs { hwnd: acc.hwnd, dry_run: true };
            i += 1;
        } else {
            return Err(unknown_argument("restore", a.as_str()));
        }
    }
    assert(all.skip(i as int) =~= Seq::<Seq<char>>::empty());
    Ok(acc)
}

/// The arguments of `set`.
pub fn cmd_set(args: &[String]) -> (r: Result<SetArgs, String>)
    ensures
        ({
            let read = set_read(
                text::texts(args@),
                SetFlags { hwnd: None, suffix: false, value: None },
            );
            match r {
                Ok(a) => read matches Ok(f) && set_error(f) is None && f.hwnd == Some(a.hwnd)
                    && match a.mode {
                    SetMode::Suffix => f.suffix,
                    SetMode::Value(v) => f.value == Some(v@),
                },
                Err(e) => match read {
                    Err(w) => e@ == w,
                    Ok(f) => set_error(f) == Some(e@),
                },
            }
        }),
{
    let ghost all = text::texts(args@);
    let n: usize = args.len();
    let ghost first = SetFlags { hwnd: None, suffix: false, value: None };
    let mut hwnd: Option<usize> = None;
    let mut suffix: bool = false;
    let mut value: Option<String> = None;
    let mut i: usize = 0;
    assert(all.skip(0) =~= all);
    while i < n
        invariant
            n == args@.len(),
            all == text::texts(args@),
            i <= n,
            first == (SetFlags { hwnd: None, suffix: false, value: None }),
            set_read(
                all.skip(i as int),
                SetFlags { hwnd, suffix, value: text::opt_text(value) },
            ) == set_read(all, first),
        decreases n - i,
    {
        let a: &String = &args[i];
        proof {
            lemma_rest(all, i as int);
            assert(all[i as int] == a@);
        }
        if is(a, "--hwnd") {
            match next_arg(args, i + 1, "--hwnd") {
                Err(e) => {
                    return Err(e);
                },
                Ok(v) => {
                    assert(all[i + 1] == v@);
                    match handle_arg("set", v.as_str()) {
                        Err(e) => {
                            return Err(e);
                        },
                        Ok(h) => {
                            hwnd = Some(h);
                        },
                    }
                },
            }
            i += 2;
        } else if is(a, "--suffix") {
            suffix = true;
            i += 1;
        } else if is(a, "--value") {
            match next_arg(args, i + 1, "--value") {
                Err(e) => {
                    return Err(e);
                },
                Ok(v) => {
                    assert(all[i + 1] == v@);
                    value = Some(v.clone());
                },
            }
            i += 2;
        } else {
            return Err(unknown_argument("set", a.as_str()));
        }
    }
    assert(all.skip(i as int) =~= Seq::<Seq<char>>::empty());
    let h: usize = match hwnd {
        Some(h) => h,
        None => {
            return Err("usage: set: --hwnd <HEX> is required".to_owned());
        },
    };
    match value {
        Some(v) => {
            if suffix {
                Err("usage: set: exactly one of --suffix / --value is required".to_owned())
            } else {
                Ok(SetArgs { hwnd: h, mode: SetMode::Value(v) })
            }
        },
        None => {
            if suffix {
                Ok(SetArgs { hwnd: h, mode: SetMode::Suffix })
            } else {
                Err("usage: set: exactly one of --suffix / --value is required".to_owned())
            }
        },
    }
}

/// What `set` is to do to a window whose id is `before`, or cannot be read.
pub fn set_plan(args: &SetArgs, before: &Result<String, String>) -> (r: Result<SetPlan, String>)
    ensures
        match before {
            Err(e) => r matches Err(w) && w@ == "set: read AUMID failed: "@ + e@,
            Ok(b) => match set_value(args.hwnd, args.mode, b@) {
                Err(w) => r matches Err(e) && e@ == w,
                Ok(v) => r matches Ok(p) && p.value@ == v && text::opt_text(p.warning) == (
                if args.mode is Suffix && !appid::fits(b@, args.hwnd) {
                    Some(cut_warning(args.hwnd, b@))
                } else {
                    None
                }),
            },
        },
{
    let b: &String = match before {
        Err(e) => {
            let mut w: String = "set: read AUMID failed: ".to_owned();
            w.push_str(e.as_str());
            return Err(w);
        },
        Ok(b) => b,
    };
    match &args.mode {
        SetMode::Suffix => {
            if text::contains_text(b.as_str(), appid::SUFFIX_MARKER) {
                let mut w: String = "set: 0x".to_owned();
                w.push_str(winutil::hwnd_hex(args.hwnd).as_str());
                w.push_str(" already carries the suffix marker '");
                w.push_str(appid::SUFFIX_MARKER);
                w.push_str("'");
                return Err(w);
            }
            let s: appid::SuffixedAumid = appid::suffixed_aumid(b.as_str(), args.hwnd);
            let warning: Option<String> = if s.truncated {
                proof {
                    appid::lemma_room(args.hwnd);
                    num::lemma_hex_len(args.hwnd);
                }
                let marker: usize = text::chars_of(appid::SUFFIX_MARKER).len();
                let digits: usize = text::chars_of(winutil::hwnd_hex(args.hwnd).as_str()).len();
                let kept: usize = text::chars_of(s.value.as_str()).len() - marker - digits;
                let mut w: String = "set: warning: original AUMID too long, kept ".to_owned();
                w.push_str(num::decimal_text(kept as u64).as_str());
                w.push_str(" chars (UTF-16 budget ");
                w.push_str(
                    num::decimal_text((appid::AUMID_MAX_LEN - marker - digits) as u64).as_str(),
                );
                w.push_str(") ");
                Some(w)
            } else {
                None
            };
            Ok(SetPlan { value: s.value, warning })
        },
        SetMode::Value(v) => match appid::validate_aumid_value(v.as_str()) {
            Ok(()) => Ok(SetPlan { value: v.clone(), warning: None }),
            Err(e) => {
                let mut w: String = "usage: set: invalid --value: ".to_owned();
                w.push_str(e.as_str());
                Err(w)
            },
        },
    }
}

/// What `set` says at the end; `took` is the time that the write took.
pub fn set_lines(before: &str, after: &str, took: &str) -> (out: Vec<String>)
    ensures
        text::texts(out@) == seq![
            "AUMID: \""@ + winutil::shown(before@) + "\" -> \""@ + winutil::shown(after@) + "\""@,
            "property write+commit took "@ + took@,
            "note: taskbar re-layout latency must be observed manually (docs/plan.md task 5-(2))"@,
        ],
{
    let mut out: Vec<String> = Vec::new();
    let mut line: String = "AUMID: \"".to_owned();
    line.push_str(winutil::shown_aumid(before));
    line.push_str("\" -> \"");
    line.push_str(winutil::shown_aumid(after));
    line.push_str("\"");
    out.push(line);
    let mut line: String = "property write+commit took ".to_owned();
    line.push_str(took);
    out.push(line);
    out.push(
        "note: taskbar re-layout latency must be observed manually (docs/plan.md task 5-(2))".to_owned(),
    );
    assert(text::texts(out@) =~= seq![
        "AUMID: \""@ + winutil::shown(before@) + "\" -> \""@ + winutil::shown(after@) + "\""@,
        "property write+commit took "@ + took@,
        "note: taskbar re-layout latency must be observed manually (docs/plan.md task 5-(2))"@,
    ]);
    out
}

/// The line that an argument names.
fn strategy_arg(command: &str, v: &str) -> (r: Result<WatchStrategy, String>)
    ensures
        match r {
            Ok(s) => strategy_of(v@) == Some(s),
            Err(e) => strategy_of(v@) is None && e@ == bad_strategy(command@, v@),
        },
{
    if text::same_text(v, "ungroup") {
        Ok(WatchStrategy::Ungroup)
    } else if text::same_text(v, "group") {
        Ok(WatchStrategy::Group)
    } else {
        let mut e: String = "usage: ".to_owned();
        e.push_str(command);
        e.push_str(": unknown strategy '");
        e.push_str(v);
        e.push_str("' (expected ungroup|group)");
        Err(e)
    }
}

/// Whether a line and a group go together.
fn check_group(command: &str, strategy: WatchStrategy, group: &Option<String>) -> (r: Result<
    (),
    String,
>)
    ensures
        match r {
            Ok(()) => group_error(
                command@,
                strategy,
                match group {
                    Some(g) => Some(g@),
                    None => None,
                },
            ) is None,
            Err(e) => group_error(
                command@,
                strategy,
                match group {
                    Some(g) => Some(g@),
                    None => None,
                },
            ) == Some(e@),
        },
{
    let mut e: String = "usage: ".to_owned();
    e.push_str(command);
    match (strategy, group) {
        (WatchStrategy::Group, None) => {
            e.push_str(": --strategy group requires --group <NAME>");
            Err(e)
        },
        (WatchStrategy::Ungroup, Some(_)) => {
            e.push_str(": --group is only valid together with --strategy group");
            Err(e)
        },
        (WatchStrategy::Group, Some(name)) => match appid::group_aumid(name.as_str()) {
            Ok(_) => Ok(()),
            Err(w) => {
                e.push_str(": ");
                e.push_str(w.as_str());
                Err(e)
            },
        },
        (WatchStrategy::Ungroup, None) => Ok(()),
    }
}

/// The arguments of `watch`: how the watcher is to run.
pub fn cmd_watch(args: &[String]) -> (r: Result<WatchOptions, String>)
    ensures
        match r {
            Ok(o) => watch_parsed(text::texts(args@)) == Ok::<WatchFlags, Seq<char>>(
                WatchFlags {
                    duration_secs: o.duration_secs,
                    dry_run: o.dry_run,
                    verbose: o.verbose,
                    log: o.ring_log,
                    strategy: o.strategy,
                    group: text::opt_text(o.group_name),
                },
            ) && !o.stoppable,
            Err(e) => watch_parsed(text::texts(args@)) == Err::<WatchFlags, Seq<char>>(e@),
        },
{
    let ghost all = text::texts(args@);
    let n: usize = args.len();
    let ghost first = watch_defaults();
    let mut duration_secs: u64 = 60;
    let mut dry_run: bool = false;
    let mut verbose: bool = false;
    let mut ring_log: bool = false;
    let mut strategy: WatchStrategy = WatchStrategy::Ungroup;
    let mut group: Option<String> = None;
    let mut i: usize = 0;
    assert(all.skip(0) =~= all);
    while i < n
        invariant
            n == args@.len(),
            all == text::texts(args@),
            i <= n,
            watch_read(
                all.skip(i as int),
                WatchFlags {
                    duration_secs,
                    dry_run,
                    verbose,
                    log: ring_log,
                    strategy,
                    group: text::opt_text(group),
                },
            ) == watch_read(all, first),
            first == watch_defaults(),
        decreases n - i,
    {
        let a: &String = &args[i];
        proof {
            lemma_rest(all, i as int);
            assert(all[i as int] == a@);
        }
        if is(a, "--duration") {
            match next_arg(args, i + 1, "--duration") {
                Err(e) => {
                    return Err(e);
                },
                Ok(v) => {
                    assert(all[i + 1] == v@);
                    match num::read_u64(text::chars_of(v.as_str()).as_slice()) {
                        Some(secs) => {
                            duration_secs = secs;
                        },
                        None => {
                            let mut e: String = "usage: watch: invalid duration '".to_owned();
                            e.push_str(v.as_str());
                            e.push_str("' (expected seconds)");
                            return Err(e);
                        },
                    }
                },
            }
            i += 2;
        } else if is(a, "--strategy") {
            match next_arg(args, i + 1, "--strategy") {
                Err(e) => {
                    return Err(e);
                },
                Ok(v) => {
                    assert(all[i + 1] == v@);
                    match strategy_arg("watch", v.as_str()) {
                        Ok(s) => {
                            strategy = s;
                        },
                        Err(e) => {
                            return Err(e);
                        },
                    }
                },
            }
            i += 2;
        } else if is(a, "--group") {
            match next_arg(args, i + 1, "--group") {
                Err(e) => {
                    return Err(e);
                },
                Ok(v) => {
                    assert(all[i + 1] == v@);
                    group = Some(v.clone());
                },
            }
            i += 2;
        } else if is(a, "--dry-run") {
            dry_run = true;
            i += 1;
        } else if is(a, "--verbose") {
            verbose = true;
            i += 1;
        } else if is(a, "--log") {
            ring_log = true;
            i += 1;
        } else {
            return Err(unknown_argument("watch", a.as_str()));
        }
    }
    assert(all.skip(i as int) =~= Seq::<Seq<char>>::empty());
    match check_group("watch", strategy, &group) {
        Err(e) => Err(e),
        Ok(()) => Ok(
            WatchOptions {
                duration_secs,
                dry_run,
                verbose,
                strategy,
                group_name: group,
                stoppable: false,
                ring_log,
            },
        ),
    }
}

/// The arguments of `install`.
pub fn cmd_install(args: &[String]) -> (r: Result<InstallArgs, String>)
    ensures
        ({
            let read = install_read(text::texts(args@), WatchStrategy::Ungroup, None);
            match r {
                Ok(a) => read == Ok::<(WatchStrategy, Option<Seq<char>>), Seq<char>>(
                    (a.strategy, text::opt_text(a.group_name)),
                ) && group_error("install"@, a.strategy, text::opt_text(a.group_name)) is None,
                Err(e) => match read {
                    Err(w) => e@ == w,
                    Ok((s, g)) => group_error("install"@, s, g) == Some(e@),
                },
            }
        }),
{
    let ghost all = text::texts(args@);
    let n: usize = args.len();
    let mut strategy: WatchStrategy = WatchStrategy::Ungroup;
    let mut group: Option<String> = None;
    let mut i: usize = 0;
    assert(all.skip(0) =~= all);
    while i < n
        invariant
            n == args@.len(),
            all == text::texts(args@),
            i <= n,
            install_read(all.skip(i as int), strategy, text::opt_text(group)) == install_read(
                all,
                WatchStrategy::Ungroup,
                None,
            ),
        decreases n - i,
    {
        let a: &String = &args[i];
        proof {
            lemma_rest(all, i as int);
            assert(all[i as int] == a@);
        }
        if is(a, "--strategy") {
            match next_arg(args, i + 1, "--strategy") {
                Err(e) => {
                    return Err(e);
                },
                Ok(v) => {
                    assert(all[i + 1] == v@);
                    match strategy_arg("install", v.as_str()) {
                        Ok(s) => {
                            strategy = s;
                        },
                        Err(e) => {
                            return Err(e);
                        },
                    }
                },
            }
            i += 2;
        } else if is(a, "--group") {
            match next_arg(args, i + 1, "--group") {
                Err(e) => {
                    return Err(e);
                },
                Ok(v) => {
                    assert(all[i + 1] == v@);
                    group = Some(v.clone());
                },
            }
            i += 2;
        } else {
            return Err(unknown_argument("install", a.as_str()));
        }
    }
    assert(all.skip(i as int) =~= Seq::<Seq<char>>::empty());
    match check_group("install", strategy, &group) {
        Err(e) => Err(e),
        Ok(()) => Ok(InstallArgs { strategy, group_name: group }),
    }
}

/// The command line that `install` registers for the program at `exe`.
pub fn install_command(exe: &str, args: &InstallArgs) -> (r: String)
    ensures
        r@ == autostart::command_line(
            autostart::normalized(exe@),
            registered_args(args.strategy, text::opt_text(args.group_name)),
        ),
{
    let plain: String = autostart::normalize_win_path(exe);
    let mut tail: Vec<&str> = Vec::new();
    tail.push("watch");
    tail.push("--strategy");
    tail.push(
        match args.strategy {
            WatchStrategy::Ungroup => "ungroup",
            WatchStrategy::Group => "group",
        },
    );
    if let Some(name) = &args.group_name {
        tail.push("--group");
        tail.push(name.as_str());
    }
    tail.push("--duration");
    tail.push("0");
    assert(autostart::arg_texts(tail@) =~= registered_args(
        args.strategy,
        text::opt_text(args.group_name),
    ));
    autostart::build_command(plain.as_str(), tail.as_slice())
}

/// What `install` says at the end.
pub fn install_lines(outcome: &InstallOutcome, command: &str) -> (out: Vec<String>)
    ensures
        text::texts(out@) == (match outcome {
            InstallOutcome::New => seq![
                "autostart registered (HKCU Run value '"@ + autostart::VALUE_NAME@ + "')"@,
            ],
            InstallOutcome::Replaced(was) => seq![
                "autostart updated (previous command replaced)"@,
                "previous: "@ + was@,
            ],
        }).push("command : "@ + command@).push(
            "note    : the registered watch runs until stopped (--duration 0); resident-host lifecycle is task 20"@,
        ),
{
    let mut out: Vec<String> = text::no_lines();
    match outcome {
        InstallOutcome::New => {
            let mut line: String = "autostart registered (HKCU Run value '".to_owned();
            line.push_str(autostart::VALUE_NAME);
            line.push_str("')");
            text::say(&mut out, line);
        },
        InstallOutcome::Replaced(was) => {
            text::say(&mut out, "autostart updated (previous command replaced)".to_owned());
            let mut line: String = "previous: ".to_owned();
            line.push_str(was.as_str());
            text::say(&mut out, line);
        },
    }
    let mut line: String = "command : ".to_owned();
    line.push_str(command);
    text::say(&mut out, line);
    text::say(
        &mut out,
        "note    : the registered watch runs until stopped (--duration 0); resident-host lifecycle is task 20".to_owned(),
    );
    out
}

/// A command that takes no arguments has got some.
fn no_arguments(command: &str, args: &[String]) -> (r: Result<(), String>)
    ensures
        args@.len() == 0 ==> r is Ok,
        args@.len() > 0 ==> (r matches Err(e) && e@ == unknown(command@, args@[0]@)),
{
    if args.len() == 0 {
        Ok(())
    } else {
        Err(unknown_argument(command, args[0].as_str()))
    }
}

/// The arguments of `uninstall`: there are none.
pub fn cmd_uninstall(args: &[String]) -> (r: Result<(), String>)
    ensures
        args@.len() == 0 ==> r is Ok,
        args@.len() > 0 ==> (r matches Err(e) && e@ == unknown("uninstall"@, args@[0]@)),
{
    no_arguments("uninstall", args)
}

/// What `uninstall` says at the end.
pub fn uninstall_lines(outcome: &UninstallOutcome) -> (out: Vec<String>)
    ensures
        text::texts(out@) == (match outcome {
            UninstallOutcome::Removed(was) => seq![
                "autostart removed (HKCU Run value '"@ + autostart::VALUE_NAME@ + "')"@,
                "was     : "@ + was@,
            ],
            UninstallOutcome::NotInstalled => seq![
                "autostart not installed; nothing to remove"@,
            ],
        }),
{
    let mut out: Vec<String> = text::no_lines();
    match outcome {
        UninstallOutcome::Removed(was) => {
            let mut line: String = "autostart removed (HKCU Run value '".to_owned();
            line.push_str(autostart::VALUE_NAME);
            line.push_str("')");
            text::say(&mut out, line);
            let mut line: String = "was     : ".to_owned();
            line.push_str(was.as_str());
            text::say(&mut out, line);
        },
        UninstallOutcome::NotInstalled => {
            text::say(&mut out, "autostart not installed; nothing to remove".to_owned());
        },
    }
    out
}

/// The arguments of `status`: there are none.
pub fn cmd_status(args: &[String]) -> (r: Result<(), String>)
    ensures
        args@.len() == 0 ==> r is Ok,
        args@.len() > 0 ==> (r matches Err(e) && e@ == unknown("status"@, args@[0]@)),
{
    no_arguments("status", args)
}

/// What `status` says of the command that starts with the session.
pub fn status_autostart(command: &Option<String>) -> (r: String)
    ensures
        r@ == (match command {
            Some(c) => "autostart  : installed — "@ + c@,
            None => "autostart  : not installed"@,
        }),
{
    match command {
        Some(c) => {
            let mut r: String = "autostart  : installed — ".to_owned();
            r.push_str(c.as_str());
            r
        },
        None => "autostart  : not installed".to_owned(),
    }
}

/// What `status` says of windows.
pub fn status_windows(ws: &Vec<(usize, WindowFacts)>) -> (out: Vec<String>)
    ensures
        text::texts(out@) == marked_lines(ws@),
{
    let mut line1: u64 = 0;
    let mut line2: u64 = 0;
    let mut unreadable: u64 = 0;
    let n: usize = ws.len();
    let mut i: usize = 0;
    while i < n
        invariant
            n == ws@.len(),
            i <= n,
            line1 + line2 + unreadable <= i,
            line1 == marked_count(ws@.take(i as int), on_line_1()),
            line2 == marked_count(ws@.take(i as int), on_line_2()),
            unreadable == marked_count(ws@.take(i as int), not_readable()),
        decreases n - i,
    {
        proof {
            assert(ws@.take(i + 1).drop_last() =~= ws@.take(i as int));
            assert(ws@.take(i + 1).last() == ws@[i as int]);
        }
        let w: &(usize, WindowFacts) = &ws[i];
        if w.1.is_app_window() {
            match &w.1.aumid {
                Ok(a) => {
                    if appid::strip_suffix(a.as_str(), w.0).is_some() {
                        line1 += 1;
                    } else if appid::is_group_aumid(a.as_str()) {
                        line2 += 1;
                    }
                },
                Err(_) => {
                    unreadable += 1;
                },
            }
        }
        i += 1;
    }
    assert(ws@.take(i as int) =~= ws@);
    let mut out: Vec<String> = text::no_lines();
    let mut line: String = "marked     : line1(ungroup)=".to_owned();
    line.push_str(num::decimal_text(line1).as_str());
    line.push_str(" line2(group)=");
    line.push_str(num::decimal_text(line2).as_str());
    line.push_str(" (total ");
    line.push_str(num::decimal_text(line1 + line2).as_str());
    line.push_str(")");
    text::say(&mut out, line);
    if unreadable > 0 {
        let mut line: String = "             (".to_owned();
        line.push_str(num::decimal_text(unreadable).as_str());
        line.push_str(" app window(s) had an unreadable AUMID)");
        text::say(&mut out, line);
    }
    out
}

/// What `status` says of the restore map at `path`, or of the data directory where
/// there is none.
pub fn status_map(status: &Result<MapStatus, String>, path: &str) -> (r: String)
    ensures
        r@ == (match status {
            Ok(MapStatus::Absent) => "restore map: absent ("@ + path@ + ")"@,
            Ok(MapStatus::Intact { entries }) => "restore map: "@ + num::decimal(*entries as nat)
                + " entries ("@ + path@ + ")"@,
            Ok(MapStatus::Corrupt(e)) => "restore map: CORRUPT — "@ + e@ + " ("@ + path@ + ")"@,
            Err(e) => "restore map: unavailable ("@ + e@ + ")"@,
        }),
{
    match status {
        Ok(MapStatus::Absent) => {
            let mut r: String = "restore map: absent (".to_owned();
            r.push_str(path);
            r.push_str(")");
            r
        },
        Ok(MapStatus::Intact { entries }) => {
            let mut r: String = "restore map: ".to_owned();
            r.push_str(num::decimal_text(*entries as u64).as_str());
            r.push_str(" entries (");
            r.push_str(path);
            r.push_str(")");
            r
        },
        Ok(MapStatus::Corrupt(e)) => {
            let mut r: String = "restore map: CORRUPT — ".to_owned();
            r.push_str(e.as_str());
            r.push_str(" (");
            r.push_str(path);
            r.push_str(")");
            r
        },
        Err(e) => {
            let mut r: String = "restore map: unavailable (".to_owned();
            r.push_str(e.as_str());
            r.push_str(")");
            r
        },
    }
}

/// The arguments of `pin`.
pub fn cmd_pin(args: &[String]) -> (r: Result<PinArgs, String>)
    ensures
        ({
            let read = pin_read(
                text::texts(args@),
                PinFlags {
                    group: None,
                    target: None,
                    icon: None,
                    arguments: None,
                    out: None,
                    to_taskbar: false,
                },
            );
            match r {
                Ok(a) => read matches Ok(f) && pin_error(f) is None && pin_agrees(a, f),
                Err(e) => match read {
                    Err(w) => e@ == w,
                    Ok(f) => pin_error(f) == Some(e@),
                },
            }
        }),
{
    let ghost all = text::texts(args@);
    let n: usize = args.len();
    let ghost first = PinFlags {
        group: None,
        target: None,
        icon: None,
        arguments: None,
        out: None,
        to_taskbar: false,
    };
    let mut group: Option<String> = None;
    let mut target: Option<String> = None;
    let mut icon: Option<String> = None;
    let mut arguments: Option<String> = None;
    let mut out: Option<String> = None;
    let mut to_taskbar: bool = false;
    let mut i: usize = 0;
    assert(all.skip(0) =~= all);
    while i < n
        invariant
            n == args@.len(),
            all == text::texts(args@),
            i <= n,
            first == (PinFlags {
                group: None,
                target: None,
                icon: None,
                arguments: None,
                out: None,
                to_taskbar: false,
            }),
            pin_read(
                all.skip(i as int),
                PinFlags {
                    group: text::opt_text(group),
                    target: text::opt_text(target),
                    icon: text::opt_text(icon),
                    arguments: text::opt_text(arguments),
                    out: text::opt_text(out),
                    to_taskbar,
                },
            ) == pin_read(all, first),
        decreases n - i,
    {
        let a: &String = &args[i];
        proof {
            lemma_rest(all, i as int);
            assert(all[i as int] == a@);
        }
        if is(a, "--to-taskbar") {
            to_taskbar = true;
            i += 1;
        } else if is(a, "--group") {
            match next_arg(args, i + 1, "--group") {
                Err(e) => {
                    return Err(e);
                },
                Ok(v) => {
                    assert(all[i + 1] == v@);
                    group = Some(v.clone());
                },
            }
            i += 2;
        } else if is(a, "--target") {
            match next_arg(args, i + 1, "--target") {
                Err(e) => {
                    return Err(e);
                },
                Ok(v) => {
                    assert(all[i + 1] == v@);
                    target = Some(v.clone());
                },
            }
            i += 2;
        } else if is(a, "--icon") {
            match next_arg(args, i + 1, "--icon") {
                Err(e) => {
                    return Err(e);
                },
                Ok(v) => {
                    assert(all[i + 1] == v@);
                    icon = Some(v.clone());
                },
            }
            i += 2;
        } else if is(a, "--args") {
            match next_arg(args, i + 1, "--args") {
                Err(e) => {
                    return Err(e);
                },
                Ok(v) => {
                    assert(all[i + 1] == v@);
                    arguments = Some(v.clone());
                },
            }
            i += 2;
        } else if is(a, "--out") {
            match next_arg(args, i + 1, "--out") {
                Err(e) => {
                    return Err(e);
                },
                Ok(v) => {
                    assert(all[i + 1] == v@);
                    out = Some(v.clone());
                },
            }
            i += 2;
        } else {
            return Err(unknown_argument("pin", a.as_str()));
        }
    }
    assert(all.skip(i as int) =~= Seq::<Seq<char>>::empty());
    let group: String = match group {
        Some(g) => g,
        None => {
            return Err("usage: pin: --group <NAME> is required".to_owned());
        },
    };
    let aumid: String = match appid::group_aumid(group.as_str()) {
        Ok(id) => id,
        Err(e) => {
            let mut w: String = "usage: pin: ".to_owned();
            w.push_str(e.as_str());
            return Err(w);
        },
    };
    let target: String = match target {
        Some(t) => t,
        None => {
            return Err("usage: pin: --target <PATH> is required".to_owned());
        },
    };
    let place: PinPlace = match out {
        Some(d) => {
            if to_taskbar {
                return Err(
                    "usage: pin: --out and --to-taskbar are mutually exclusive".to_owned(),
                );
            }
            PinPlace::Directory(d)
        },
        None => if to_taskbar {
            PinPlace::Taskbar
        } else {
            PinPlace::Default
        },
    };
    let icon: Option<(String, i32)> = match icon {
        Some(spec) => match shortcut::parse_icon_spec(spec.as_str()) {
            Ok(parts) => Some(parts),
            Err(_) => {
                return Err("usage: pin: icon path must not be empty".to_owned());
            },
        },
        None => None,
    };
    Ok(PinArgs { group, aumid, target, icon, arguments, place })
}

/// What is said of a path given to `pin` at which there is no file.
pub fn pin_file_error(flag: &str, path: &str) -> (r: String)
    ensures
        r@ == no_file(flag@, path@),
{
    let mut w: String = flag.to_owned();
    w.push_str(" '");
    w.push_str(path);
    w.push_str("' is not an existing file");
    let mut r: String = "usage: ".to_owned();
    r.push_str("pin");
    r.push_str(": ");
    r.push_str(w.as_str());
    r
}

/// The file of a tile: below `data_dir`, below the application data of the user, or
/// in the directory that was named.
pub fn pin_path(args: &PinArgs, data_dir: &str, app_data: &str) -> (r: String)
    ensures
        r@ == winutil::joined_path(
            match args.place {
                PinPlace::Default => winutil::joined_path(data_dir@, shortcut::PIN_DIR_NAME@),
                PinPlace::Directory(d) => d@,
                PinPlace::Taskbar => winutil::joined_path(app_data@, shortcut::TASKBAR_DIR@),
            },
            args.group@ + ".lnk"@,
        ),
{
    let dir: String = match &args.place {
        PinPlace::Default => shortcut::pin_dir(data_dir),
        PinPlace::Directory(d) => d.clone(),
        PinPlace::Taskbar => shortcut::taskbar_dir(app_data),
    };
    winutil::join_path(dir.as_str(), shortcut::lnk_file_name(args.group.as_str()).as_str())
}

/// The arguments of `unpin`: the name of a group.
pub fn cmd_unpin(args: &[String]) -> (r: Result<String, String>)
    ensures
        match r {
            Ok(name) => unpin_read(text::texts(args@), None) == Ok::<
                Option<Seq<char>>,
                Seq<char>,
            >(Some(name@)) && unpin_error(Some(name@)) is None,
            Err(e) => match unpin_read(text::texts(args@), None) {
                Err(w) => e@ == w,
                Ok(group) => unpin_error(group) == Some(e@),
            },
        },
{
    let ghost all = text::texts(args@);
    let n: usize = args.len();
    let mut group: Option<String> = None;
    let mut i: usize = 0;
    assert(all.skip(0) =~= all);
    while i < n
        invariant
            n == args@.len(),
            all == text::texts(args@),
            i <= n,
            unpin_read(all.skip(i as int), text::opt_text(group)) == unpin_read(all, None),
        decreases n - i,
    {
        let a: &String = &args[i];
        proof {
            lemma_rest(all, i as int);
            assert(all[i as int] == a@);
        }
        if is(a, "--group") {
            match next_arg(args, i + 1, "--group") {
                Err(e) => {
                    return Err(e);
                },
                Ok(v) => {
                    assert(all[i + 1] == v@);
                    group = Some(v.clone());
                },
            }
            i += 2;
        } else {
            return Err(unknown_argument("unpin", a.as_str()));
        }
    }
    assert(all.skip(i as int) =~= Seq::<Seq<char>>::empty());
    match group {
        None => Err("usage: unpin: --group <NAME> is required".to_owned()),
        Some(name) => match appid::group_aumid(name.as_str()) {
            Ok(_) => Ok(name),
            Err(e) => {
                let mut w: String = "usage: unpin: ".to_owned();
                w.push_str(e.as_str());
                Err(w)
            },
        },
    }
}

} // verus!
