//! Restoring windows: the ids that they had before they were marked.
//!
//! A window with a suffix is restored from its own id, a window with a group id
//! from the restore map. The map is read when the first window needs it, and only
//! while no other process may write it.

use vstd::prelude::*;

use crate::appid;
use crate::num;
use crate::restoremap;
use crate::restoremap::Entries;
use crate::restoremap::MapFile;
use crate::restoremap::RestoreMap;
use crate::restoremap::SavePlan;
use crate::text;
use crate::winevent;
use crate::winutil;

verus! {

/// How far the restore map is read.
pub enum MapSlot {
    /// Not yet.
    Unread,
    /// It could not be.
    Unavailable,
    /// It is.
    Loaded(RestoreMap),
}

/// Where the restore map is read from.
pub enum MapSource {
    /// It is not known where the data directory is, and why.
    NoDirectory(String),
    /// The data directory is not there and could not be made, and why.
    NotMade(String),
    /// This was found there.
    Found(MapFile),
}

/// A run over windows.
pub struct RestoreRun {
    /// Whether nothing is written.
    pub dry_run: bool,
    /// Whether one window was named.
    pub single: bool,
    /// Whether the right to write the map is held.
    pub mutex_held: bool,
    pub map: MapSlot,
    pub restored: u32,
    pub cleared: u32,
    pub skipped: u32,
    pub orphans: u32,
    pub failed: u32,
    pub would: u32,
}

/// A write that is to be made.
pub struct RestoreJob {
    /// The handle of the window.
    pub key: usize,
    /// The id that it has.
    pub aumid: String,
    /// The id that it is to have; where it is empty, the id is to be cleared.
    pub original: String,
    /// Whether the original comes from the restore map.
    pub grouped: bool,
}

/// What a window leads to.
pub enum RestoreStep {
    /// Nothing, without a word.
    Quiet,
    /// Nothing, and this is said.
    Line(String),
    /// A write, after which `written` is called.
    Write(RestoreJob),
    /// The right to write the map is needed; `mutex_acquired` is called, and the
    /// window comes again.
    NeedMutex,
    /// The map is needed; `map_read` is called, and the window comes again unless
    /// that failed.
    NeedMap,
}

// ---------------------------------------------------------------------------
// Models
// ---------------------------------------------------------------------------

/// How far the restore map is read, as a value.
#[verifier::ext_equal]
pub enum SlotView {
    Unread,
    Unavailable,
    Loaded(Entries),
}

/// A run, as a value.
#[verifier::ext_equal]
pub struct RunView {
    pub dry_run: bool,
    pub single: bool,
    pub mutex_held: bool,
    pub map: SlotView,
    pub restored: u32,
    pub cleared: u32,
    pub skipped: u32,
    pub orphans: u32,
    pub failed: u32,
    pub would: u32,
}

/// A write, as a value.
#[verifier::ext_equal]
pub struct RestoreJobView {
    pub key: usize,
    pub aumid: Seq<char>,
    pub original: Seq<char>,
    pub grouped: bool,
}

/// What a window leads to, as a value.
#[verifier::ext_equal]
pub enum StepView {
    Quiet,
    Line(Seq<char>),
    Write(RestoreJobView),
    NeedMutex,
    NeedMap,
}

impl View for MapSlot {
    type V = SlotView;

    open spec fn view(&self) -> SlotView {
        match self {
            MapSlot::Unread => SlotView::Unread,
            MapSlot::Unavailable => SlotView::Unavailable,
            MapSlot::Loaded(m) => SlotView::Loaded(m@),
        }
    }
}

impl View for RestoreRun {
    type V = RunView;

    open spec fn view(&self) -> RunView {
        RunView {
            dry_run: self.dry_run,
            single: self.single,
            mutex_held: self.mutex_held,
            map: self.map@,
            restored: self.restored,
            cleared: self.cleared,
            skipped: self.skipped,
            orphans: self.orphans,
            failed: self.failed,
            would: self.would,
        }
    }
}

impl View for RestoreJob {
    type V = RestoreJobView;

    open spec fn view(&self) -> RestoreJobView {
        RestoreJobView {
            key: self.key,
            aumid: self.aumid@,
            original: self.original@,
            grouped: self.grouped,
        }
    }
}

impl View for RestoreStep {
    type V = StepView;

    open spec fn view(&self) -> StepView {
        match self {
            RestoreStep::Quiet => StepView::Quiet,
            RestoreStep::Line(s) => StepView::Line(s@),
            RestoreStep::Write(j) => StepView::Write(j@),
            RestoreStep::NeedMutex => StepView::NeedMutex,
            RestoreStep::NeedMap => StepView::NeedMap,
        }
    }
}

/// The next value of a counter, which starts over behind its greatest value.
pub open spec fn next(n: u32) -> u32 {
    if n == u32::MAX {
        0
    } else {
        (n + 1) as u32
    }
}

/// The start of a line about a window.
pub open spec fn about(key: usize) -> Seq<char> {
    "0x"@ + num::hex(key as nat)
}

/// What is said of a change. An id that is cleared without the restore map stands
/// without quotes.
pub open spec fn change(j: RestoreJobView) -> Seq<char> {
    if j.original.len() > 0 {
        about(j.key) + " \""@ + j.aumid + "\" -> \""@ + j.original + "\""@
    } else if j.grouped {
        about(j.key) + " \""@ + j.aumid + "\" -> <cleared>"@
    } else {
        about(j.key) + " "@ + j.aumid + " -> <cleared>"@
    }
}

/// What is done about a window whose original is known: in a dry run it is only
/// printed.
pub open spec fn to_restore(r: RunView, j: RestoreJobView) -> (RunView, StepView) {
    if r.dry_run {
        (RunView { would: next(r.would), ..r }, StepView::Line(change(j) + " [dry-run]"@))
    } else {
        (r, StepView::Write(j))
    }
}

/// What a window with the id `aumid` leads to.
pub open spec fn stepped(r: RunView, key: usize, aumid: Seq<char>) -> (RunView, StepView) {
    match appid::stripped(aumid, key) {
        Some(original) => to_restore(
            r,
            RestoreJobView { key, aumid, original, grouped: false },
        ),
        None => if appid::is_group(aumid) {
            if !r.mutex_held {
                (r, StepView::NeedMutex)
            } else {
                match r.map {
                    SlotView::Unread => (r, StepView::NeedMap),
                    SlotView::Unavailable => (
                        RunView { orphans: next(r.orphans), ..r },
                        StepView::Line(about(key) + " restore map unavailable; left untouched"@),
                    ),
                    SlotView::Loaded(es) => match restoremap::original_of(es, key, aumid) {
                        Some(original) => to_restore(
                            RunView {
                                map: SlotView::Loaded(
                                    if r.dry_run {
                                        es
                                    } else {
                                        es.remove(key)
                                    },
                                ),
                                ..r
                            },
                            RestoreJobView { key, aumid, original, grouped: true },
                        ),
                        None => (
                            RunView { orphans: next(r.orphans), ..r },
                            StepView::Line(
                                about(key) + " group AUMID \""@ + aumid
                                    + "\" has no matching map entry; left untouched"@,
                            ),
                        ),
                    },
                }
            }
        } else {
            (
                RunView { skipped: next(r.skipped), ..r },
                if r.single {
                    StepView::Line(
                        about(key) + " no marker, nothing to restore (aumid: "@ + winutil::shown(
                            aumid,
                        ) + ")"@,
                    )
                } else {
                    StepView::Quiet
                },
            )
        },
    }
}

/// What a window leads to whose id may be unreadable.
pub open spec fn step_of(r: RunView, key: usize, aumid: Result<String, String>) -> (
    RunView,
    StepView,
) {
    match aumid {
        Err(e) => (
            RunView { failed: next(r.failed), ..r },
            StepView::Line(about(key) + " read FAILED: "@ + e@),
        ),
        Ok(a) => stepped(r, key, a@),
    }
}

/// What follows a write.
pub open spec fn after_write(r: RunView, j: RestoreJobView, error: Option<Seq<char>>) -> (
    RunView,
    Seq<char>,
) {
    match error {
        None => (
            if j.original.len() == 0 {
                RunView { cleared: next(r.cleared), ..r }
            } else {
                RunView { restored: next(r.restored), ..r }
            },
            change(j),
        ),
        Some(e) => (
            RunView { failed: next(r.failed), ..r },
            about(j.key) + (if j.original.len() == 0 {
                " clear FAILED: "@
            } else {
                " restore FAILED: "@
            }) + e,
        ),
    }
}

/// What follows an attempt to read the map for a window: a line where it failed,
/// which counts for that window and is not tried again.
pub open spec fn after_read(r: RunView, key: usize, source: MapSource) -> (
    RunView,
    Option<Seq<char>>,
) {
    match source {
        MapSource::NoDirectory(e) => (
            RunView { failed: next(r.failed), map: SlotView::Unavailable, ..r },
            Some("restore map dir unavailable: "@ + e@),
        ),
        MapSource::NotMade(e) => (
            RunView { failed: next(r.failed), map: SlotView::Unavailable, ..r },
            Some(about(key) + " restore map load FAILED: "@ + e@),
        ),
        MapSource::Found(file) => match restoremap::loaded(file) {
            Ok(es) => (RunView { map: SlotView::Loaded(es), ..r }, None),
            Err(e) => (
                RunView { failed: next(r.failed), map: SlotView::Unavailable, ..r },
                Some(about(key) + " restore map load FAILED: "@ + e),
            ),
        },
    }
}

/// What is said at the end.
pub open spec fn summary_lines(r: RunView) -> Seq<Seq<char>> {
    if r.dry_run {
        seq![
            Seq::empty(),
            "restore summary (dry-run): would-restore="@ + num::decimal(r.would as nat)
                + " skipped(no marker)="@ + num::decimal(r.skipped as nat)
                + " orphans(no map entry)="@ + num::decimal(r.orphans as nat) + " failed="@
                + num::decimal(r.failed as nat)
                + " — nothing written, restore map untouched"@,
        ]
    } else {
        seq![
            Seq::empty(),
            "restore summary: restored="@ + num::decimal(r.restored as nat) + " cleared="@
                + num::decimal(r.cleared as nat) + " skipped(no marker)="@ + num::decimal(
                r.skipped as nat,
            ) + " orphans(no map entry)="@ + num::decimal(r.orphans as nat) + " failed="@
                + num::decimal(r.failed as nat),
            "note: whether taskbar buttons fully return to native grouping must be observed on real Windows"@,
        ]
    }
}

// ---------------------------------------------------------------------------
// Laws
// ---------------------------------------------------------------------------

/// A dry run writes nothing: no window, and not the map.
pub proof fn law_dry_run_only_looks(r: RunView, key: usize, aumid: Seq<char>)
    requires
        r.dry_run,
    ensures
        !(stepped(r, key, aumid).1 is Write),
        stepped(r, key, aumid).0.map == r.map,
{
}

/// Restoring undoes the suffix line: a window that carries the suffixed form of an
/// id gets that id back, as far as it fitted, or loses its id where it had none.
pub proof fn law_restore_undoes_suffix(r: RunView, key: usize, original: Seq<char>)
    requires
        !r.dry_run,
    ensures
        stepped(r, key, appid::suffixed(original, key)) == (
            r,
            StepView::Write(
                RestoreJobView {
                    key,
                    aumid: appid::suffixed(original, key),
                    original: appid::head(original, key),
                    grouped: false,
                },
            ),
        ),
        appid::fits(original, key) ==> appid::head(original, key) == original,
{
    appid::law_strip_undoes_suffix(original, key);
}

/// Restoring undoes the group line: a window that carries the group id under which
/// its original was recorded gets that original back, and its entry leaves the map.
pub proof fn law_restore_undoes_group(
    r: RunView,
    es: Entries,
    key: usize,
    name: Seq<char>,
    original: Seq<char>,
)
    requires
        !r.dry_run,
        r.mutex_held,
        appid::group_name(name),
        r.map == SlotView::Loaded(es.insert(key, (appid::group_value(name), original))),
    ensures
        stepped(r, key, appid::group_value(name)).1 == StepView::Write(
            RestoreJobView { key, aumid: appid::group_value(name), original, grouped: true },
        ),
        stepped(r, key, appid::group_value(name)).0.map == SlotView::Loaded(es.remove(key)),
{
    let group = appid::group_value(name);
    appid::law_group_value(name);
    text::lemma_contains_iff_last(group, appid::SUFFIX_MARKER@);
    assert(es.insert(key, (group, original)).remove(key) =~= es.remove(key));
}

/// What the watcher does to a window on the group line, a later run undoes by way
/// of the file: the map that the watcher saves before it writes is read back as it
/// was, and gives the window the id that it had. This is so of entries that the
/// file can hold; an id with a line feed in it, or with a carriage return at its
/// end, is none.
pub proof fn law_group_survives_the_file(
    m: winevent::Watch,
    trigger: winevent::Trigger,
    key: usize,
    f: winutil::WindowFacts,
    at: Seq<char>,
    name: Seq<char>,
    single: bool,
)
    requires
        m.strategy is Group,
        appid::group_name(name),
        m.group_value == appid::group_value(name),
        m.map matches Some(es) && (forall|k: usize| #[trigger]
            es.contains_key(k) ==> restoremap::storable(es[k])),
        f.aumid matches Ok(a) && !a@.contains('\n') && (a@.len() > 0 ==> a@.last() != '\r'),
    ensures
        winevent::considered(m, trigger, key, f, at).1.action
            matches winevent::ActionView::SaveThenWrite(j) ==> ({
            let saved = winevent::considered(m, trigger, key, f, at).0.map->0;
            let r = RunView {
                dry_run: false,
                single,
                mutex_held: true,
                map: SlotView::Loaded(saved),
                restored: 0,
                cleared: 0,
                skipped: 0,
                orphans: 0,
                failed: 0,
                would: 0,
            };
            &&& restoremap::parsed(restoremap::serialized(saved)) == Ok::<Entries, Seq<char>>(
                saved,
            )
            &&& stepped(r, key, j.value).1 == StepView::Write(
                RestoreJobView { key, aumid: j.value, original: j.aumid, grouped: true },
            )
            &&& f.aumid matches Ok(a) && j.aumid == a@
        }),
{
    if winevent::considered(m, trigger, key, f, at).1.action is SaveThenWrite {
        let a = f.aumid->Ok_0@;
        let es = m.map->0;
        let group = appid::group_value(name);
        let saved = es.insert(key, (group, a));
        lemma_group_is_storable(name);
        assert forall|k: usize| #[trigger] saved.contains_key(k) implies restoremap::storable(
            saved[k],
        ) by {
            if k != key {
                assert(es.contains_key(k));
            }
        }
        restoremap::law_write_read(saved);
        appid::law_group_value(name);
        text::lemma_contains_iff_last(group, appid::SUFFIX_MARKER@);
    }
}

/// A group id holds neither a tab nor a line feed.
proof fn lemma_group_is_storable(name: Seq<char>)
    requires
        appid::group_name(name),
    ensures
        !appid::group_value(name).contains('\t'),
        !appid::group_value(name).contains('\n'),
{
    reveal_strlit("TBG.Group.");
    let v = appid::group_value(name);
    assert forall|i: int| 0 <= i < v.len() implies v[i] != '\t' && v[i] != '\n' by {
        if i >= 10 {
            assert(v[i] == name[i - 10]);
            assert(appid::group_char(name[i - 10]));
        } else {
            assert(v[i] == appid::GROUP_PREFIX@[i]);
        }
    }
}

/// A window is not touched without knowing its original: a group id that the map
/// does not know for this window leaves the window and the map as they are.
pub proof fn law_unknown_group_is_left_alone(r: RunView, key: usize, aumid: Seq<char>)
    requires
        appid::stripped(aumid, key) is None,
        r.map matches SlotView::Loaded(es) ==> restoremap::original_of(es, key, aumid) is None,
    ensures
        !(stepped(r, key, aumid).1 is Write),
        stepped(r, key, aumid).0.map == r.map,
{
}

/// The map is not read before the right to write it is held, and nothing is done
/// about a window with a group id before both.
pub proof fn law_map_needs_mutex(r: RunView, key: usize, aumid: Seq<char>)
    ensures
        stepped(r, key, aumid).1 is NeedMap ==> r.mutex_held,
        appid::stripped(aumid, key) is None && appid::is_group(aumid) && !r.mutex_held
            ==> stepped(r, key, aumid) == (r, StepView::NeedMutex),
{
}

/// A map that cannot be read counts as one failure and is not read again: later
/// windows that need it are left untouched.
pub proof fn law_unreadable_map_fails_once(
    r: RunView,
    key: usize,
    source: MapSource,
    later: usize,
    aumid: Seq<char>,
)
    requires
        r.mutex_held,
        after_read(r, key, source).1 is Some,
        appid::stripped(aumid, later) is None,
        appid::is_group(aumid),
    ensures
        ({
            let n = after_read(r, key, source).0;
            &&& n.failed == next(r.failed)
            &&& stepped(n, later, aumid).1 is Line
            &&& stepped(n, later, aumid).0.failed == n.failed
        }),
{
}

/// A window with its own suffix is restored to what stands before it, and one with a group
/// id to the original that the map holds for it; an empty original clears the id. In a dry
/// run this is only told.
pub proof fn law_marked_window_is_restored(
    r: RunView,
    key: usize,
    aumid: Seq<char>,
    original: Seq<char>,
)
    ensures
        ({
            let (n, s) = stepped(r, key, aumid);
            let suffixed = aumid == original + "~TBG~w"@ + num::hex(key as nat);
            let grouped = appid::stripped(aumid, key) is None && appid::is_group(aumid)
                && r.mutex_held && (r.map matches SlotView::Loaded(es) && es.contains_key(key)
                && es[key] == (aumid, original));
            let j = RestoreJobView { key, aumid, original, grouped };
            let told = "0x"@ + num::hex(key as nat) + (if original.len() > 0 {
                " \""@ + aumid + "\" -> \""@ + original + "\""@
            } else if grouped {
                " \""@ + aumid + "\" -> <cleared>"@
            } else {
                " "@ + aumid + " -> <cleared>"@
            });
            &&& (suffixed || grouped) && !r.dry_run ==> s == StepView::Write(j)
            &&& suffixed && !r.dry_run ==> n == r
            &&& grouped && !r.dry_run ==> n == (RunView {
                map: SlotView::Loaded(r.map->Loaded_0.remove(key)),
                ..r
            })
            &&& (suffixed || grouped) && r.dry_run ==> s == StepView::Line(told + " [dry-run]"@)
                && n == (RunView { would: next(r.would), ..r })
            &&& after_write(r, j, None) == (
                if original.len() > 0 {
                    RunView { restored: next(r.restored), ..r }
                } else {
                    RunView { cleared: next(r.cleared), ..r }
                },
                told,
            )
        }),
{
    appid::law_strip_takes_the_suffix_off(aumid, key, original);
    let k = "0x"@ + num::hex(key as nat);
    assert(k + (" \""@ + aumid + "\" -> \""@ + original + "\""@) =~= k + " \""@ + aumid
        + "\" -> \""@ + original + "\""@);
    assert(k + (" \""@ + aumid + "\" -> <cleared>"@) =~= k + " \""@ + aumid + "\" -> <cleared>"@);
    assert(k + (" "@ + aumid + " -> <cleared>"@) =~= k + " "@ + aumid + " -> <cleared>"@);
}

/// What cannot be restored is left alone and counted: an id that cannot be read, one without
/// a marker, a group id without an entry for this window, and one for which there is no map.
/// A group id waits for the right to write the map and for the map.
pub proof fn law_others_are_left_alone(r: RunView, key: usize, a: String, e: String)
    ensures
        step_of(r, key, Err(e)) == (
            RunView { failed: next(r.failed), ..r },
            StepView::Line("0x"@ + num::hex(key as nat) + " read FAILED: "@ + e@),
        ),
        step_of(r, key, Ok(a)) == stepped(r, key, a@),
        appid::stripped(a@, key) is None && !appid::is_group(a@) ==> stepped(r, key, a@) == (
            RunView { skipped: next(r.skipped), ..r },
            if r.single {
                StepView::Line(
                    "0x"@ + num::hex(key as nat) + " no marker, nothing to restore (aumid: "@
                        + winutil::shown(a@) + ")"@,
                )
            } else {
                StepView::Quiet
            },
        ),
        appid::stripped(a@, key) is None && appid::is_group(a@) ==> {
            &&& !r.mutex_held ==> stepped(r, key, a@) == (r, StepView::NeedMutex)
            &&& r.mutex_held && r.map is Unread ==> stepped(r, key, a@) == (r, StepView::NeedMap)
            &&& r.mutex_held && r.map is Unavailable ==> stepped(r, key, a@) == (
                RunView { orphans: next(r.orphans), ..r },
                StepView::Line(
                    "0x"@ + num::hex(key as nat) + " restore map unavailable; left untouched"@,
                ),
            )
            &&& r.mutex_held && (r.map matches SlotView::Loaded(es) && !(es.contains_key(key)
                && es[key].0 == a@)) ==> stepped(r, key, a@) == (
                RunView { orphans: next(r.orphans), ..r },
                StepView::Line(
                    "0x"@ + num::hex(key as nat) + " group AUMID \""@ + a@
                        + "\" has no matching map entry; left untouched"@,
                ),
            )
        },
{
}

/// A write that failed is counted and told, as a clearing where the id was to be cleared.
pub proof fn law_failed_writes_are_told(r: RunView, j: RestoreJobView, e: Seq<char>)
    ensures
        after_write(r, j, Some(e)) == (
            RunView { failed: next(r.failed), ..r },
            "0x"@ + num::hex(j.key as nat) + (if j.original.len() == 0 {
                " clear FAILED: "@
            } else {
                " restore FAILED: "@
            }) + e,
        ),
{
}

/// A map that is found and in order is loaded, without a word; else that is told once, and
/// the map counts as not to be had.
pub proof fn law_map_is_read(r: RunView, key: usize, file: MapFile, e: String)
    ensures
        match restoremap::loaded(file) {
            Ok(es) => after_read(r, key, MapSource::Found(file)) == (
                RunView { map: SlotView::Loaded(es), ..r },
                None::<Seq<char>>,
            ),
            Err(w) => after_read(r, key, MapSource::Found(file)) == (
                RunView { failed: next(r.failed), map: SlotView::Unavailable, ..r },
                Some("0x"@ + num::hex(key as nat) + " restore map load FAILED: "@ + w),
            ),
        },
        after_read(r, key, MapSource::NotMade(e)) == (
            RunView { failed: next(r.failed), map: SlotView::Unavailable, ..r },
            Some("0x"@ + num::hex(key as nat) + " restore map load FAILED: "@ + e@),
        ),
        after_read(r, key, MapSource::NoDirectory(e)) == (
            RunView { failed: next(r.failed), map: SlotView::Unavailable, ..r },
            Some("restore map dir unavailable: "@ + e@),
        ),
{
}

/// The summary tells every count, each under its name.
pub proof fn law_summary(r: RunView)
    ensures
        r.dry_run ==> summary_lines(r) == seq![
            Seq::<char>::empty(),
            "restore summary (dry-run): would-restore="@ + num::decimal(r.would as nat)
                + " skipped(no marker)="@ + num::decimal(r.skipped as nat)
                + " orphans(no map entry)="@ + num::decimal(r.orphans as nat) + " failed="@
                + num::decimal(r.failed as nat) + " — nothing written, restore map untouched"@,
        ],
        !r.dry_run ==> summary_lines(r) == seq![
            Seq::<char>::empty(),
            "restore summary: restored="@ + num::decimal(r.restored as nat) + " cleared="@
                + num::decimal(r.cleared as nat) + " skipped(no marker)="@ + num::decimal(
                r.skipped as nat,
            ) + " orphans(no map entry)="@ + num::decimal(r.orphans as nat) + " failed="@
                + num::decimal(r.failed as nat),
            "note: whether taskbar buttons fully return to native grouping must be observed on real Windows"@,
        ],
{
}

/// Counters count up by one, and from the greatest number on from zero again.
pub proof fn law_counters(n: u32)
    ensures
        n < u32::MAX ==> next(n) == n + 1,
        next(u32::MAX) == 0,
{
}

/// A run is taken for what its fields hold, and so are a write and a step.
pub proof fn law_run_is_its_fields(
    r: RestoreRun,
    j: RestoreJob,
    m: restoremap::RestoreMap,
    line: String,
)
    ensures
        r@.dry_run == r.dry_run && r@.single == r.single && r@.mutex_held == r.mutex_held,
        r@.map == r.map@,
        r@.restored == r.restored && r@.cleared == r.cleared && r@.skipped == r.skipped,
        r@.orphans == r.orphans && r@.failed == r.failed && r@.would == r.would,
        MapSlot::Unread@ == SlotView::Unread,
        MapSlot::Unavailable@ == SlotView::Unavailable,
        MapSlot::Loaded(m)@ == SlotView::Loaded(m@),
        j@.key == j.key && j@.aumid == j.aumid@ && j@.original == j.original@ && j@.grouped
            == j.grouped,
        RestoreStep::Quiet@ == StepView::Quiet,
        RestoreStep::Line(line)@ == StepView::Line(line@),
        RestoreStep::Write(j)@ == StepView::Write(j@),
        RestoreStep::NeedMutex@ == StepView::NeedMutex,
        RestoreStep::NeedMap@ == StepView::NeedMap,
{
}

// ---------------------------------------------------------------------------
// Functions
// ---------------------------------------------------------------------------

/// The next value of a counter.
fn bumped(n: u32) -> (r: u32)
    ensures
        r == next(n),
{
    if n == u32::MAX {
        0
    } else {
        n + 1
    }
}

/// The start of a line about a window.
fn head(key: usize) -> (r: String)
    ensures
        r@ == about(key),
{
    let mut r: String = "0x".to_owned();
    r.push_str(winutil::hwnd_hex(key).as_str());
    r
}

/// What is said of a change.
fn change_text(j: &RestoreJob) -> (r: String)
    ensures
        r@ == change(j@),
{
    let mut r: String = head(j.key);
    if !j.original.as_str().is_empty() {
        r.push_str(" \"");
        r.push_str(j.aumid.as_str());
        r.push_str("\" -> \"");
        r.push_str(j.original.as_str());
        r.push_str("\"");
    } else if j.grouped {
        r.push_str(" \"");
        r.push_str(j.aumid.as_str());
        r.push_str("\" -> <cleared>");
    } else {
        r.push_str(" ");
        r.push_str(j.aumid.as_str());
        r.push_str(" -> <cleared>");
    }
    r
}

/// Adds a label and a number behind it.
fn with_number(s: &mut String, label: &str, n: u32)
    ensures
        final(s)@ == old(s)@ + label@ + num::decimal(n as nat),
{
    s.push_str(label);
    s.push_str(num::decimal_text(n as u64).as_str());
}

impl RestoreRun {
    /// A run over one window that was named, or over all.
    pub fn new(dry_run: bool, single: bool) -> (r: RestoreRun)
        ensures
            r@ == (RunView {
                dry_run,
                single,
                mutex_held: false,
                map: SlotView::Unread,
                restored: 0,
                cleared: 0,
                skipped: 0,
                orphans: 0,
                failed: 0,
                would: 0,
            }),
    {
        RestoreRun {
            dry_run,
            single,
            mutex_held: false,
            map: MapSlot::Unread,
            restored: 0,
            cleared: 0,
            skipped: 0,
            orphans: 0,
            failed: 0,
            would: 0,
        }
    }

    /// A window whose original is known.
    fn restore(&mut self, j: RestoreJob) -> (r: RestoreStep)
        ensures
            (final(self)@, r@) == to_restore(old(self)@, j@),
    {
        if self.dry_run {
            self.would = bumped(self.would);
            let mut line: String = change_text(&j);
            line.push_str(" [dry-run]");
            RestoreStep::Line(line)
        } else {
            RestoreStep::Write(j)
        }
    }

    /// Comes to a window, whose id is `aumid` or cannot be read.
    pub fn step(&mut self, key: usize, aumid: &Result<String, String>) -> (r: RestoreStep)
        ensures
            (final(self)@, r@) == step_of(old(self)@, key, *aumid),
    {
        let a: &String = match aumid {
            Err(e) => {
                self.failed = bumped(self.failed);
                let mut line: String = head(key);
                line.push_str(" read FAILED: ");
                line.push_str(e.as_str());
                return RestoreStep::Line(line);
            },
            Ok(a) => a,
        };
        if let Some(original) = appid::strip_suffix(a.as_str(), key) {
            return self.restore(
                RestoreJob {
                    key,
                    aumid: a.clone(),
                    original: original.to_owned(),
                    grouped: false,
                },
            );
        }
        if !appid::is_group_aumid(a.as_str()) {
            self.skipped = bumped(self.skipped);
            if !self.single {
                return RestoreStep::Quiet;
            }
            let mut line: String = head(key);
            line.push_str(" no marker, nothing to restore (aumid: ");
            line.push_str(winutil::shown_aumid(a.as_str()));
            line.push_str(")");
            return RestoreStep::Line(line);
        }
        if !self.mutex_held {
            return RestoreStep::NeedMutex;
        }
        let dry_run: bool = self.dry_run;
        let found: Option<String> = match &mut self.map {
            MapSlot::Unread => {
                return RestoreStep::NeedMap;
            },
            MapSlot::Unavailable => {
                self.orphans = bumped(self.orphans);
                let mut line: String = head(key);
                line.push_str(" restore map unavailable; left untouched");
                return RestoreStep::Line(line);
            },
            MapSlot::Loaded(map) => {
                if dry_run {
                    map.peek(key, a.as_str())
                } else {
                    map.take(key, a.as_str())
                }
            },
        };
        match found {
            Some(original) => self.restore(
                RestoreJob { key, aumid: a.clone(), original, grouped: true },
            ),
            None => {
                self.orphans = bumped(self.orphans);
                let mut line: String = head(key);
                line.push_str(" group AUMID \"");
                line.push_str(a.as_str());
                line.push_str("\" has no matching map entry; left untouched");
                RestoreStep::Line(line)
            },
        }
    }

    /// Is told whether the right to write the map is held now. Where it is not, the
    /// run ends with the error.
    pub fn mutex_acquired(&mut self, result: Result<(), String>) -> (r: Result<(), String>)
        ensures
            match result {
                Ok(()) => r is Ok && final(self)@ == (RunView { mutex_held: true, ..old(self)@ }),
                Err(e) => r matches Err(w) && w@ == "restore: "@ + e@ && final(self)@
                    == old(self)@,
            },
    {
        match result {
            Ok(()) => {
                self.mutex_held = true;
                Ok(())
            },
            Err(e) => {
                let mut w: String = "restore: ".to_owned();
                w.push_str(e.as_str());
                Err(w)
            },
        }
    }

    /// Is told what was found where the map should be. Gives a line where the map
    /// cannot be had; the window is then done with.
    pub fn map_read(&mut self, key: usize, source: &MapSource) -> (r: Option<String>)
        ensures
            (final(self)@, text::opt_text(r)) == after_read(old(self)@, key, *source),
    {
        match source {
            MapSource::NoDirectory(e) => {
                self.failed = bumped(self.failed);
                self.map = MapSlot::Unavailable;
                let mut line: String = "restore map dir unavailable: ".to_owned();
                line.push_str(e.as_str());
                Some(line)
            },
            MapSource::NotMade(e) => Some(self.fail_to_load(key, e.as_str())),
            MapSource::Found(file) => match RestoreMap::load(file) {
                Ok(map) => {
                    self.map = MapSlot::Loaded(map);
                    None
                },
                Err(e) => Some(self.fail_to_load(key, e.as_str())),
            },
        }
    }

    /// The map cannot be loaded; gives the line about it.
    fn fail_to_load(&mut self, key: usize, e: &str) -> (line: String)
        ensures
            final(self)@ == (RunView {
                failed: next(old(self).failed),
                map: SlotView::Unavailable,
                ..old(self)@
            }),
            line@ == about(key) + " restore map load FAILED: "@ + e@,
    {
        self.failed = bumped(self.failed);
        self.map = MapSlot::Unavailable;
        let mut line: String = head(key);
        line.push_str(" restore map load FAILED: ");
        line.push_str(e);
        line
    }

    /// Is told how a write went; gives the line about it.
    pub fn written(&mut self, j: &RestoreJob, result: Result<(), String>) -> (line: String)
        ensures
            (final(self)@, line@) == after_write(
                old(self)@,
                j@,
                match result {
                    Ok(()) => None,
                    Err(e) => Some(e@),
                },
            ),
    {
        let clear: bool = j.original.as_str().is_empty();
        match result {
            Ok(()) => {
                if clear {
                    self.cleared = bumped(self.cleared);
                } else {
                    self.restored = bumped(self.restored);
                }
                change_text(j)
            },
            Err(e) => {
                self.failed = bumped(self.failed);
                let mut line: String = head(j.key);
                if clear {
                    line.push_str(" clear FAILED: ");
                } else {
                    line.push_str(" restore FAILED: ");
                }
                line.push_str(e.as_str());
                line
            },
        }
    }

    /// How the map is brought to disk at the end: where it was read, unless this is
    /// a dry run.
    pub fn save_plan(&self) -> (r: Option<SavePlan>)
        ensures
            match self@.map {
                SlotView::Loaded(es) => if self.dry_run {
                    r is None
                } else {
                    match r {
                        Some(SavePlan::RemoveFile) => es.len() == 0,
                        Some(SavePlan::Write(t)) => es.len() > 0 && t@
                            == restoremap::serialized(es),
                        None => false,
                    }
                },
                _ => r is None,
            },
    {
        if self.dry_run {
            return None;
        }
        match &self.map {
            MapSlot::Loaded(map) => Some(map.save()),
            _ => None,
        }
    }

    /// The end of the run: what is said, and whether it worked. In a dry run it
    /// always did.
    pub fn finish(&self) -> (r: (Vec<String>, Result<(), String>))
        ensures
            text::texts(r.0@) == summary_lines(self@),
            self.dry_run || self.failed == 0 ==> r.1 is Ok,
            !self.dry_run && self.failed > 0 ==> (r.1 matches Err(e) && e@ == "restore: "@
                + num::decimal(self.failed as nat) + " window(s) failed"@),
    {
        let mut out: Vec<String> = Vec::new();
        out.push(String::new());
        if self.dry_run {
            let mut line: String = "restore summary (dry-run): would-restore=".to_owned();
            line.push_str(num::decimal_text(self.would as u64).as_str());
            with_number(&mut line, " skipped(no marker)=", self.skipped);
            with_number(&mut line, " orphans(no map entry)=", self.orphans);
            with_number(&mut line, " failed=", self.failed);
            line.push_str(" — nothing written, restore map untouched");
            out.push(line);
            assert(text::texts(out@) =~= summary_lines(self@));
            return (out, Ok(()));
        }
        let mut line: String = "restore summary: restored=".to_owned();
        line.push_str(num::decimal_text(self.restored as u64).as_str());
        with_number(&mut line, " cleared=", self.cleared);
        with_number(&mut line, " skipped(no marker)=", self.skipped);
        with_number(&mut line, " orphans(no map entry)=", self.orphans);
        with_number(&mut line, " failed=", self.failed);
        out.push(line);
        out.push(
            "note: whether taskbar buttons fully return to native grouping must be observed on real Windows".to_owned(),
        );
        assert(text::texts(out@) =~= summary_lines(self@));
        if self.failed > 0 {
            let mut e: String = "restore: ".to_owned();
            e.push_str(num::decimal_text(self.failed as u64).as_str());
            e.push_str(" window(s) failed");
            return (out, Err(e));
        }
        (out, Ok(()))
    }
}

} // verus!
