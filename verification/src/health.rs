//! The circuit breaker: a watcher that dies soon after each start must not be
//! started with the session for ever.
//!
//! A small file holds how many runs in a row ended soon after they began, and,
//! while a run lasts, when it began and when it was last known to be alive. The
//! next start reads from it how the run before ended: a run that left its line
//! behind and lived for less than half a minute counts as abnormal. After some of
//! these in a row the breaker trips.

use vstd::prelude::*;

use crate::num;
use crate::text;

verus! {

/// The name of the file.
pub const HEALTH_FILE_NAME: &'static str = "tbg-health.tsv";

/// The heading of the file.
pub const HEADER: &'static str = "# tbg-lite health v1";

/// A run that lived for fewer seconds than this ended abnormally.
pub const ABNORMAL_MAX_UPTIME_SECS: u64 = 30;

/// How many abnormal ends in a row trip the breaker.
pub const TRIP_THRESHOLD: u32 = 3;

/// How many seconds lie between two signs of life.
pub const HEARTBEAT_SECS: u64 = 5;

/// A run, by when it began and when it was last known to be alive, in seconds of
/// Unix time. Files of an older form hold no sign of life.
#[derive(Debug, Clone, Copy, PartialEq, Eq, Structural)]
pub struct RunningState {
    pub start: u64,
    pub heartbeat: Option<u64>,
}

/// The present run.
pub struct Health {
    /// The abnormal ends in a row before it.
    pub streak: u32,
    /// When it began.
    pub start: u64,
    /// Whether the breaker tripped at its start.
    pub tripped: bool,
}

// ---------------------------------------------------------------------------
// Models
// ---------------------------------------------------------------------------

/// For how long a run is known to have lived. Without a sign of life it is taken
/// to have lived until now.
pub open spec fn uptime(now: u64, r: RunningState) -> int {
    let end = match r.heartbeat {
        Some(h) => h,
        None => now,
    };
    if end > r.start {
        end - r.start
    } else {
        0
    }
}

/// The abnormal ends in a row, with the run before the present one.
pub open spec fn streak_after(now: u64, prev: Option<RunningState>, streak: u32) -> int {
    match prev {
        None => streak as int,
        Some(r) => if uptime(now, r) >= ABNORMAL_MAX_UPTIME_SECS {
            0
        } else if streak == u32::MAX {
            u32::MAX as int
        } else {
            streak + 1
        },
    }
}

/// The streak and whether the breaker trips, which starts the count anew.
pub open spec fn accounted(now: u64, prev: Option<RunningState>, streak: u32) -> (u32, bool) {
    let n = streak_after(now, prev, streak);
    if n >= TRIP_THRESHOLD {
        (0, true)
    } else {
        (n as u32, false)
    }
}

/// The line of the streak.
pub open spec fn streak_line(streak: u32) -> Seq<char> {
    "abnormal_streak"@ + seq!['\t'] + num::decimal(streak as nat)
}

/// The line of a run.
pub open spec fn running_line(r: RunningState) -> Seq<char> {
    "running"@ + seq!['\t'] + (match r.heartbeat {
        Some(h) => num::decimal(r.start as nat) + seq!['\t'] + num::decimal(h as nat),
        None => num::decimal(r.start as nat),
    })
}

/// The text of the file.
pub open spec fn rendered(streak: u32, running: Option<RunningState>) -> Seq<char> {
    HEADER@ + seq!['\n'] + (streak_line(streak) + seq!['\n'] + (match running {
        Some(r) => running_line(r) + seq!['\n'] + Seq::empty(),
        None => Seq::empty(),
    }))
}

/// What one line says, over what the lines before it said. A line that is not
/// understood says nothing.
pub open spec fn line_read(line: Seq<char>, acc: (u32, Option<RunningState>)) -> (
    u32,
    Option<RunningState>,
) {
    let fields = text::split(line, '\t');
    if fields.len() < 2 {
        acc
    } else {
        let key = text::trim(fields[0]);
        let value = text::trim(fields[1]);
        if key == "abnormal_streak"@ {
            match num::unsigned(value, 10, u32::MAX as nat) {
                Some(n) => (n as u32, acc.1),
                None => acc,
            }
        } else if key == "running"@ {
            match num::unsigned(value, 10, u64::MAX as nat) {
                Some(start) => (
                    acc.0,
                    Some(
                        RunningState {
                            start: start as u64,
                            heartbeat: if fields.len() < 3 {
                                None
                            } else {
                                match num::unsigned(
                                    text::trim(fields[2]),
                                    10,
                                    u64::MAX as nat,
                                ) {
                                    Some(h) => Some(h as u64),
                                    None => None,
                                }
                            },
                        },
                    ),
                ),
                None => acc,
            }
        } else {
            acc
        }
    }
}

/// What lines say, one after the other.
pub open spec fn lines_read(ls: Seq<Seq<char>>, acc: (u32, Option<RunningState>)) -> (
    u32,
    Option<RunningState>,
)
    decreases ls.len(),
{
    if ls.len() == 0 {
        acc
    } else {
        lines_read(ls.skip(1), line_read(ls[0], acc))
    }
}

/// What a file says.
pub open spec fn parsed(s: Seq<char>) -> (u32, Option<RunningState>) {
    lines_read(text::lines(s), (0, None))
}

// ---------------------------------------------------------------------------
// Laws
// ---------------------------------------------------------------------------

/// The digits of a number hold no separator, and there is nothing to trim.
proof fn lemma_number_field(n: nat)
    ensures
        num::decimal(n).len() > 0,
        !num::decimal(n).contains('\t'),
        !num::decimal(n).contains('\n'),
        num::decimal(n).last() != '\r',
        text::trim(num::decimal(n)) == num::decimal(n),
        text::split(num::decimal(n), '\t') == seq![num::decimal(n)],
{
    let d = num::decimal(n);
    num::lemma_numeral(n, 10);
    assert forall|i: int| 0 <= i < d.len() implies !text::white_space(d[i]) by {
        assert(num::upper_hex_digit(d[i]));
    }
    text::lemma_first_index_is(d, '\t', d.len() as int);
}

/// A field without a tab, a tab and further fields.
proof fn lemma_split_front(a: Seq<char>, b: Seq<char>)
    requires
        !a.contains('\t'),
    ensures
        text::split(a + seq!['\t'] + b, '\t') == seq![a] + text::split(b, '\t'),
{
    text::lemma_first_index_concat(a, '\t', b);
}

/// No tab and no line feed in either part means none in both together.
proof fn lemma_no_line_feed(a: Seq<char>, b: Seq<char>)
    requires
        !a.contains('\n'),
        !b.contains('\n'),
    ensures
        !(a + seq!['\t'] + b).contains('\n'),
{
    let s = a + seq!['\t'] + b;
    if s.contains('\n') {
        let i = choose|i: int| 0 <= i < s.len() && s[i] == '\n';
        if i < a.len() {
            assert(a[i] == '\n');
        } else if i > a.len() {
            assert(b[i - a.len() - 1] == '\n');
        }
    }
}

/// The line of the streak is read as the streak.
proof fn lemma_streak_line(streak: u32, acc: (u32, Option<RunningState>))
    ensures
        line_read(streak_line(streak), acc) == (streak, acc.1),
        !streak_line(streak).contains('\n'),
        text::strip_cr(streak_line(streak)) == streak_line(streak),
{
    reveal_strlit("abnormal_streak");
    let k = "abnormal_streak"@;
    let d = num::decimal(streak as nat);
    lemma_number_field(streak as nat);
    num::lemma_numeral_round_trip(streak as nat, 10, u32::MAX as nat);
    lemma_split_front(k, d);
    lemma_no_line_feed(k, d);
    assert(text::split(streak_line(streak), '\t') =~= seq![k, d]);
    assert(text::trim(k) == k);
    assert(streak_line(streak).last() == d.last());
}

/// The line of a run is read as the run.
proof fn lemma_running_line(r: RunningState, acc: (u32, Option<RunningState>))
    ensures
        line_read(running_line(r), acc) == (acc.0, Some(r)),
        !running_line(r).contains('\n'),
        text::strip_cr(running_line(r)) == running_line(r),
{
    reveal_strlit("running");
    reveal_strlit("abnormal_streak");
    let k = "running"@;
    let s = num::decimal(r.start as nat);
    assert(k.len() != "abnormal_streak"@.len());
    assert(text::trim(k) == k);
    lemma_number_field(r.start as nat);
    num::lemma_numeral_round_trip(r.start as nat, 10, u64::MAX as nat);
    match r.heartbeat {
        Some(h) => {
            let d = num::decimal(h as nat);
            let rest = s + seq!['\t'] + d;
            lemma_number_field(h as nat);
            num::lemma_numeral_round_trip(h as nat, 10, u64::MAX as nat);
            lemma_split_front(s, d);
            lemma_split_front(k, rest);
            lemma_no_line_feed(s, d);
            lemma_no_line_feed(k, rest);
            assert(text::split(running_line(r), '\t') =~= seq![k, s, d]);
            assert(running_line(r).last() == rest.last());
            assert(rest.last() == d.last());
        },
        None => {
            lemma_split_front(k, s);
            lemma_no_line_feed(k, s);
            assert(text::split(running_line(r), '\t') =~= seq![k, s]);
            assert(running_line(r).last() == s.last());
        },
    }
}

/// Reading what was written gives the same back.
pub proof fn law_write_read(streak: u32, running: Option<RunningState>)
    ensures
        parsed(rendered(streak, running)) == (streak, running),
{
    reveal_strlit("# tbg-lite health v1");
    let tail = match running {
        Some(r) => running_line(r) + seq!['\n'] + Seq::empty(),
        None => Seq::empty(),
    };
    let body = streak_line(streak) + seq!['\n'] + tail;
    assert(!HEADER@.contains('\n'));
    text::lemma_lines_front(HEADER@, body);
    lemma_streak_line(streak, (0, None));
    text::lemma_lines_front(streak_line(streak), tail);
    text::lemma_first_index_is(HEADER@, '\t', HEADER@.len() as int);
    assert(line_read(HEADER@, (0, None)) == (0u32, None::<RunningState>));
    let ls = text::lines(rendered(streak, running));
    assert(ls[0] == HEADER@);
    assert(ls.skip(1) =~= text::lines(body));
    assert(text::lines(body)[0] == streak_line(streak));
    assert(text::lines(body).skip(1) =~= text::lines(tail));
    match running {
        Some(r) => {
            lemma_running_line(r, (streak, None));
            text::lemma_lines_front(running_line(r), Seq::empty());
            assert(text::lines(tail) =~= seq![running_line(r)]);
            assert(text::lines(tail).skip(1) =~= Seq::<Seq<char>>::empty());
            assert(lines_read(text::lines(tail).skip(1), (streak, running)) == (streak, running));
        },
        None => {
            assert(text::lines(tail) =~= Seq::<Seq<char>>::empty());
        },
    }
    assert(lines_read(text::lines(tail), (streak, None)) == (streak, running));
    assert(lines_read(text::lines(body), (0, None)) == (streak, running));
}

/// Three runs in a row that end soon after they began trip the breaker, at the
/// third and not before; then the count starts anew.
pub proof fn law_three_short_runs_trip(
    t1: u64,
    r1: RunningState,
    t2: u64,
    r2: RunningState,
    t3: u64,
    r3: RunningState,
)
    requires
        uptime(t1, r1) < ABNORMAL_MAX_UPTIME_SECS,
        uptime(t2, r2) < ABNORMAL_MAX_UPTIME_SECS,
        uptime(t3, r3) < ABNORMAL_MAX_UPTIME_SECS,
    ensures
        ({
            let (s1, trip1) = accounted(t1, Some(r1), 0);
            let (s2, trip2) = accounted(t2, Some(r2), s1);
            let (s3, trip3) = accounted(t3, Some(r3), s2);
            !trip1 && !trip2 && trip3 && s3 == 0
        }),
{
}

/// A run that lived for long starts the count anew, however it ended.
pub proof fn law_long_run_resets(now: u64, r: RunningState, streak: u32)
    requires
        uptime(now, r) >= ABNORMAL_MAX_UPTIME_SECS,
    ensures
        accounted(now, Some(r), streak) == (0u32, false),
{
}

/// How a run counts does not depend on when the next one is started, where the
/// file holds a sign of life: a machine that is off for long between two starts
/// does not hide a run that died at once.
pub proof fn law_gap_between_starts_is_irrelevant(a: u64, b: u64, r: RunningState, streak: u32)
    requires
        r.heartbeat is Some,
    ensures
        accounted(a, Some(r), streak) == accounted(b, Some(r), streak),
{
}

/// A run that ended in good order leaves nothing to count: the start after it has
/// a streak of zero.
pub proof fn law_clean_end_clears(now: u64)
    ensures
        parsed(rendered(0, None)) == (0u32, None::<RunningState>),
        accounted(now, parsed(rendered(0, None)).1, parsed(rendered(0, None)).0) == (0u32, false),
{
    law_write_read(0, None);
}

/// A run that is cut off counts by its last sign of life: the start after it finds
/// the streak as it was and takes the run to have lived until then.
pub proof fn law_cut_off_run_counts_by_last_sign(
    streak: u32,
    start: u64,
    last: u64,
    now: u64,
)
    ensures
        ({
            let r = RunningState { start, heartbeat: Some(last) };
            let (s, running) = parsed(rendered(streak, Some(r)));
            &&& accounted(now, running, s) == accounted(now, Some(r), streak)
            &&& last >= start ==> uptime(now, r) == last - start
        }),
{
    law_write_read(streak, Some(RunningState { start, heartbeat: Some(last) }));
}

/// How a start counts: a run that lived for less than half a minute adds one to the ends in a
/// row, a longer one begins anew, and where no run was cut off the count stays. At three the
/// breaker trips, and the count begins anew.
pub proof fn law_runs_are_counted(now: u64, start: u64, last: u64, streak: u32)
    ensures
        ({
            let seen = Some(RunningState { start, heartbeat: Some(last) });
            let unseen = Some(RunningState { start, heartbeat: None });
            let more = |n: int| if n >= 3 {
                (0u32, true)
            } else {
                (n as u32, false)
            };
            &&& last - start >= 30 ==> accounted(now, seen, streak) == (0u32, false)
            &&& last - start < 30 ==> accounted(now, seen, streak) == more(streak + 1)
            &&& now - start >= 30 ==> accounted(now, unseen, streak) == (0u32, false)
            &&& now - start < 30 ==> accounted(now, unseen, streak) == more(streak + 1)
            &&& accounted(now, None, streak) == more(streak as int)
        }),
{
}

/// The file holds a heading, the ends in a row, and, while a run lasts, when it began and when
/// it was last known to be alive.
pub proof fn law_file_text(streak: u32, start: u64, last: u64)
    ensures
        ({
            let head = "# tbg-lite health v1"@ + seq!['\n'] + "abnormal_streak"@ + seq!['\t']
                + num::decimal(streak as nat) + seq!['\n'];
            let run = head + "running"@ + seq!['\t'] + num::decimal(start as nat);
            &&& rendered(streak, None) == head
            &&& rendered(streak, Some(RunningState { start, heartbeat: None })) == run + seq!['\n']
            &&& rendered(streak, Some(RunningState { start, heartbeat: Some(last) })) == run + seq![
                '\t',
            ] + num::decimal(last as nat) + seq!['\n']
        }),
{
    let head = "# tbg-lite health v1"@ + seq!['\n'] + "abnormal_streak"@ + seq!['\t']
        + num::decimal(streak as nat) + seq!['\n'];
    let run = head + "running"@ + seq!['\t'] + num::decimal(start as nat);
    assert(rendered(streak, None) =~= head);
    assert(rendered(streak, Some(RunningState { start, heartbeat: None })) =~= run + seq!['\n']);
    assert(rendered(streak, Some(RunningState { start, heartbeat: Some(last) })) =~= run + seq![
        '\t',
    ] + num::decimal(last as nat) + seq!['\n']);
}

/// Reading one more line.
proof fn lemma_read_push(ls: Seq<Seq<char>>, x: Seq<char>, acc: (u32, Option<RunningState>))
    ensures
        lines_read(ls.push(x), acc) == line_read(x, lines_read(ls, acc)),
    decreases ls.len(),
{
    let all = ls.push(x);
    if ls.len() == 0 {
        assert(all.skip(1) =~= Seq::<Seq<char>>::empty());
        assert(lines_read(all.skip(1), line_read(x, acc)) == line_read(x, acc));
    } else {
        assert(all.skip(1) =~= ls.skip(1).push(x));
        assert(all[0] == ls[0]);
        lemma_read_push(ls.skip(1), x, line_read(ls[0], acc));
    }
}

/// The file is read line by line, by the fields that tabs part: the ends in a row, and a run
/// with its beginning and, where there is one, its last sign of life. A later line goes before
/// an earlier one; blanks round a field, a carriage return at the end of a line and further
/// fields say nothing, and neither does a line that is not understood.
pub proof fn law_file_is_read_line_by_line(
    t: Seq<char>,
    line: Seq<char>,
    key: Seq<char>,
    value: Seq<char>,
    beat: Seq<char>,
    rest: Seq<char>,
)
    requires
        t.len() > 0 ==> t.last() == '\n',
        !line.contains('\n'),
        !key.contains('\t'),
        !value.contains('\t'),
        !beat.contains('\t'),
    ensures
        parsed(Seq::empty()) == (0u32, None::<RunningState>),
        ({
            let x = if line.len() > 0 && line.last() == '\r' {
                line.drop_last()
            } else {
                line
            };
            let (streak, run) = parsed(t);
            let all = parsed(t + line + seq!['\n']);
            let two = key + seq!['\t'] + value;
            let three = two + seq!['\t'] + beat;
            let more = three + seq!['\t'] + rest;
            let known = x == two || x == three || x == more;
            let k = text::trim(key);
            let v = text::trim(value);
            let b = text::trim(beat);
            let ends = num::unsigned(v, 10, u32::MAX as nat);
            let start = num::unsigned(v, 10, u64::MAX as nat);
            let last = num::unsigned(b, 10, u64::MAX as nat);
            &&& !x.contains('\t') ==> all == (streak, run)
            &&& known && k == "abnormal_streak"@ ==> all == (
                if ends is Some {
                    ends->0 as u32
                } else {
                    streak
                },
                run,
            )
            &&& known && k == "running"@ && start is None ==> all == (streak, run)
            &&& x == two && k == "running"@ && start is Some ==> all == (
                streak,
                Some(RunningState { start: start->0 as u64, heartbeat: None }),
            )
            &&& (x == three || x == more) && k == "running"@ && start is Some ==> all == (
                streak,
                Some(
                    RunningState {
                        start: start->0 as u64,
                        heartbeat: if last is Some {
                            Some(last->0 as u64)
                        } else {
                            None
                        },
                    },
                ),
            )
            &&& known && k != "abnormal_streak"@ && k != "running"@ ==> all == (streak, run)
        }),
{
    reveal_strlit("abnormal_streak");
    reveal_strlit("running");
    assert("abnormal_streak"@.len() != "running"@.len());
    let none = Seq::<char>::empty();
    assert(text::lines(none) =~= Seq::<Seq<char>>::empty());
    let x = text::strip_cr(line);
    text::lemma_lines_push(t, line);
    lemma_read_push(text::lines(t), x, (0, None));
    let two = key + seq!['\t'] + value;
    let three = two + seq!['\t'] + beat;
    let more = three + seq!['\t'] + rest;
    if !x.contains('\t') {
        text::lemma_first_index_is(x, '\t', x.len() as int);
    }
    if x == two {
        lemma_split_front(key, value);
        text::lemma_first_index_is(value, '\t', value.len() as int);
        assert(text::split(x, '\t') =~= seq![key, value]);
    }
    if x == three {
        assert(three =~= key + seq!['\t'] + (value + seq!['\t'] + beat));
        lemma_split_front(key, value + seq!['\t'] + beat);
        lemma_split_front(value, beat);
        text::lemma_first_index_is(beat, '\t', beat.len() as int);
        assert(text::split(x, '\t') =~= seq![key, value, beat]);
    }
    if x == more {
        let tail = beat + seq!['\t'] + rest;
        assert(more =~= key + seq!['\t'] + (value + seq!['\t'] + tail));
        lemma_split_front(key, value + seq!['\t'] + tail);
        lemma_split_front(value, tail);
        lemma_split_front(beat, rest);
        assert(text::split(x, '\t') =~= seq![key, value, beat] + text::split(rest, '\t'));
    }
}

/// The file has its name, and shows every five seconds that a run is alive.
pub proof fn law_file_name()
    ensures
        HEALTH_FILE_NAME@ == "tbg-health.tsv"@,
        HEARTBEAT_SECS == 5,
{
}

// ---------------------------------------------------------------------------
// Functions
// ---------------------------------------------------------------------------

/// The streak and whether the breaker trips, from what the file held.
pub fn account(now: u64, prev: Option<RunningState>, prev_streak: u32) -> (r: (u32, bool))
    ensures
        r == accounted(now, prev, prev_streak),
{
    let streak: u32 = match prev {
        Some(r) => {
            let end: u64 = match r.heartbeat {
                Some(h) => h,
                None => now,
            };
            let lived: u64 = if end > r.start {
                end - r.start
            } else {
                0
            };
            if lived >= ABNORMAL_MAX_UPTIME_SECS {
                0
            } else if prev_streak == u32::MAX {
                u32::MAX
            } else {
                prev_streak + 1
            }
        },
        None => prev_streak,
    };
    if streak >= TRIP_THRESHOLD {
        (0, true)
    } else {
        (streak, false)
    }
}

/// Reads one line.
fn read_line(line: &[char], acc: (u32, Option<RunningState>)) -> (r: (u32, Option<RunningState>))
    ensures
        r == line_read(line@, acc),
{
    let fields: Vec<Vec<char>> = text::split_chars(line, '\t');
    let ghost all = text::pieces(fields@);
    if fields.len() < 2 {
        return acc;
    }
    proof {
        assert(all[0] == fields@[0]@);
        assert(all[1] == fields@[1]@);
    }
    let key: Vec<char> = text::trimmed(fields[0].as_slice());
    let value: Vec<char> = text::trimmed(fields[1].as_slice());
    if text::is_text(key.as_slice(), "abnormal_streak") {
        match num::read_u32(value.as_slice()) {
            Some(n) => (n, acc.1),
            None => acc,
        }
    } else if text::is_text(key.as_slice(), "running") {
        match num::read_u64(value.as_slice()) {
            Some(start) => {
                let heartbeat: Option<u64> = if fields.len() < 3 {
                    None
                } else {
                    proof {
                        assert(all[2] == fields@[2]@);
                    }
                    num::read_u64(text::trimmed(fields[2].as_slice()).as_slice())
                };
                (acc.0, Some(RunningState { start, heartbeat }))
            },
            None => acc,
        }
    } else {
        acc
    }
}

/// Reads the file: the streak and the run that it tells of.
pub fn parse(content: &str) -> (r: (u32, Option<RunningState>))
    ensures
        r == parsed(content@),
{
    let ls: Vec<Vec<char>> = text::line_list(text::chars_of(content).as_slice());
    let ghost all = text::pieces(ls@);
    let mut acc: (u32, Option<RunningState>) = (0, None);
    let mut i: usize = 0;
    assert(all.skip(0) =~= all);
    while i < ls.len()
        invariant
            i <= ls@.len(),
            all == text::pieces(ls@),
            lines_read(all.skip(i as int), acc) == parsed(content@),
        decreases ls@.len() - i,
    {
        proof {
            assert(all.skip(i as int)[0] == ls@[i as int]@);
            assert(all.skip(i as int).skip(1) =~= all.skip(i + 1));
        }
        acc = read_line(ls[i].as_slice(), acc);
        i += 1;
    }
    assert(all.skip(i as int) =~= Seq::<Seq<char>>::empty());
    acc
}

/// The text of the file; without a run it is that of a run that ended in good
/// order.
pub fn render(streak: u32, running: Option<RunningState>) -> (s: String)
    ensures
        s@ == rendered(streak, running),
{
    let mut s: String = HEADER.to_owned();
    s.push('\n');
    s.push_str("abnormal_streak");
    s.push('\t');
    s.push_str(num::decimal_text(streak as u64).as_str());
    s.push('\n');
    if let Some(r) = running {
        s.push_str("running");
        s.push('\t');
        s.push_str(num::decimal_text(r.start).as_str());
        if let Some(h) = r.heartbeat {
            s.push('\t');
            s.push_str(num::decimal_text(h).as_str());
        }
        s.push('\n');
    }
    assert(s@ =~= rendered(streak, running));
    s
}

/// Starts a run at `now`, given what the file holds, if there is one that can be
/// read. Gives the run and the text that the file is to hold from now on.
pub fn begin(now: u64, previous: Option<&str>) -> (r: (Health, String))
    ensures
        ({
            let (streak, running) = match previous {
                Some(t) => parsed(t@),
                None => (0u32, None),
            };
            let (s, tripped) = accounted(now, running, streak);
            &&& r.0 == (Health { streak: s, start: now, tripped })
            &&& r.1@ == rendered(s, Some(RunningState { start: now, heartbeat: Some(now) }))
        }),
{
    let (prev_streak, prev_running): (u32, Option<RunningState>) = match previous {
        Some(t) => parse(t),
        None => (0, None),
    };
    let (streak, tripped): (u32, bool) = account(now, prev_running, prev_streak);
    let health: Health = Health { streak, start: now, tripped };
    let text: String = health.heartbeat(now);
    (health, text)
}

impl Health {
    /// A sign of life at `now`: the text that the file is to hold.
    pub fn heartbeat(&self, now: u64) -> (s: String)
        ensures
            s@ == rendered(
                self.streak,
                Some(RunningState { start: self.start, heartbeat: Some(now) }),
            ),
    {
        render(self.streak, Some(RunningState { start: self.start, heartbeat: Some(now) }))
    }

    /// The end of the run in good order: the text that the file is to hold.
    pub fn end_clean(&self) -> (s: String)
        ensures
            s@ == rendered(0, None),
    {
        render(0, None)
    }
}

} // verus!
