//! Starting with the session: the command line that is registered under the `Run`
//! key of the current user, and what the registry answers.

use vstd::prelude::*;

use crate::num;
use crate::text;
use crate::utf16;

verus! {

/// The path of the key below the root of the current user.
pub const RUN_SUBKEY: &'static str = "Software\\Microsoft\\Windows\\CurrentVersion\\Run";

/// The name of the value.
pub const VALUE_NAME: &'static str = "tbg-lite";

/// The code of a call that worked.
pub const ERROR_SUCCESS: u32 = 0;

/// The code of a key or value that is not there.
pub const ERROR_FILE_NOT_FOUND: u32 = 2;

/// The type of a registry value that is a text.
pub const REG_SZ: u32 = 1;

/// What came of registering a command line.
pub enum InstallOutcome {
    /// There was none.
    New,
    /// It took the place of this one.
    Replaced(String),
}

/// What came of removing the command line.
pub enum UninstallOutcome {
    /// This one was removed.
    Removed(String),
    /// There was none.
    NotInstalled,
}

/// How reading the command line goes on after a call.
pub enum ReadStep {
    /// The next call is to be made.
    Next,
    /// This is the command line, if there is one.
    Done(Option<String>),
    /// Reading failed.
    Failed(String),
}

/// How removing the command line goes on after a call.
pub enum RemoveStep {
    /// The next call is to be made.
    Next,
    /// This is the outcome.
    Done(UninstallOutcome),
    /// Removing failed.
    Failed(String),
}

// ---------------------------------------------------------------------------
// Models
// ---------------------------------------------------------------------------

/// What is said of a call that failed.
pub open spec fn call_error(api: Seq<char>, code: u32) -> Seq<char> {
    api + " failed (win32 error "@ + num::decimal(code as nat) + ")"@
}

/// Arguments, each with a space before it.
pub open spec fn spaced(args: Seq<Seq<char>>) -> Seq<char>
    decreases args.len(),
{
    if args.len() == 0 {
        Seq::empty()
    } else {
        spaced(args.drop_last()) + seq![' '] + args.last()
    }
}

/// Arguments as texts.
pub open spec fn arg_texts(args: Seq<&str>) -> Seq<Seq<char>> {
    args.map_values(|s: &str| s@)
}

/// The command line of a program, in quotes, and its arguments.
pub open spec fn command_line(exe: Seq<char>, args: Seq<Seq<char>>) -> Seq<char> {
    "\""@ + exe + "\""@ + spaced(args)
}

/// A path without the prefix of an extended path.
pub open spec fn plain_path(path: Seq<char>) -> Seq<char> {
    if text::starts_with(path, "\\\\?\\UNC\\"@) {
        "\\\\"@ + path.skip(8)
    } else if text::starts_with(path, "\\\\?\\"@) {
        path.skip(4)
    } else {
        path
    }
}

/// Whether a path starts with a drive.
pub open spec fn drive_path(p: Seq<char>) -> bool {
    p.len() >= 2 && (p[0] as u32) < 0x80 && p[1] == ':'
}

/// Whether a path starts with a server.
pub open spec fn unc_path(p: Seq<char>) -> bool {
    text::starts_with(p, "\\\\"@)
}

/// The parts that are not empty.
pub open spec fn nonempty(ps: Seq<Seq<char>>) -> Seq<Seq<char>>
    decreases ps.len(),
{
    if ps.len() == 0 {
        Seq::empty()
    } else if ps.last().len() > 0 {
        nonempty(ps.drop_last()).push(ps.last())
    } else {
        nonempty(ps.drop_last())
    }
}

/// The segments of a path, without empty ones.
pub open spec fn segments(p: Seq<char>) -> Seq<Seq<char>> {
    nonempty(text::split(p, '\\'))
}

/// Segments without those that name the directory itself or the one above: the
/// latter takes the segment before it away, if there is one.
pub open spec fn folded(segs: Seq<Seq<char>>) -> Seq<Seq<char>>
    decreases segs.len(),
{
    if segs.len() == 0 {
        Seq::empty()
    } else {
        let before = folded(segs.drop_last());
        let last = segs.last();
        if last == "."@ {
            before
        } else if last == ".."@ {
            if before.len() > 0 {
                before.drop_last()
            } else {
                before
            }
        } else {
            before.push(last)
        }
    }
}

/// A root and the segments below it as a path.
pub open spec fn below(root: Seq<char>, segs: Seq<Seq<char>>) -> Seq<char> {
    if segs.len() == 0 {
        root
    } else {
        root + seq!['\\'] + text::joined(segs, seq!['\\'])
    }
}

/// The plain form of a path: without the prefix of an extended path, and, where it
/// starts with a drive or with a server and a share, with its segments folded.
pub open spec fn normalized(path: Seq<char>) -> Seq<char> {
    let p = plain_path(path);
    let parts = segments(p);
    if unc_path(p) {
        if parts.len() < 3 {
            p
        } else {
            below("\\\\"@ + parts[0] + seq!['\\'] + parts[1], folded(parts.skip(2)))
        }
    } else if drive_path(p) {
        below(p.take(2), folded(segments(p.skip(2))))
    } else {
        p
    }
}

/// The bytes of code units, the low byte first.
pub open spec fn le_bytes(u: Seq<u16>) -> Seq<u8> {
    Seq::new(
        2 * u.len(),
        |i: int|
            if i % 2 == 0 {
                (u[i / 2] % 256) as u8
            } else {
                (u[i / 2] / 256) as u8
            },
    )
}

/// The code units of bytes, the low byte first; an odd byte at the end is left out.
pub open spec fn le_units(b: Seq<u8>) -> Seq<u16> {
    Seq::new(b.len() / 2, |i: int| (b[2 * i] + 256 * b[2 * i + 1]) as u16)
}

/// The code units up to the first that is zero.
pub open spec fn up_to_nul(u: Seq<u16>) -> Seq<u16>
    decreases u.len(),
{
    if u.len() == 0 || u[0] == 0 {
        Seq::empty()
    } else {
        seq![u[0]] + up_to_nul(u.skip(1))
    }
}

// ---------------------------------------------------------------------------
// Laws
// ---------------------------------------------------------------------------

/// Code units that are followed by a zero and hold none.
proof fn lemma_up_to_nul(u: Seq<u16>, rest: Seq<u16>)
    requires
        forall|i: int| 0 <= i < u.len() ==> u[i] != 0,
    ensures
        up_to_nul(u + seq![0u16] + rest) == u,
    decreases u.len(),
{
    let s = u + seq![0u16] + rest;
    if u.len() > 0 {
        assert(s[0] == u[0]);
        assert(s.skip(1) =~= u.skip(1) + seq![0u16] + rest);
        lemma_up_to_nul(u.skip(1), rest);
        assert(seq![u[0]] + u.skip(1) =~= u);
    } else {
        assert(s[0] == 0);
    }
}

/// A character other than zero has no code unit that is zero.
proof fn lemma_char_not_nul(c: char)
    requires
        c != '\0',
    ensures
        forall|i: int| 0 <= i < utf16::char_units(c).len() ==> utf16::char_units(c)[i] != 0,
{
}

/// A text without the character zero has no code unit that is zero.
proof fn lemma_units_not_nul(s: Seq<char>)
    requires
        !s.contains('\0'),
    ensures
        forall|i: int| 0 <= i < utf16::units(s).len() ==> utf16::units(s)[i] != 0,
    decreases s.len(),
{
    if s.len() > 0 {
        assert(s[0] != '\0');
        assert forall|i: int| 0 <= i < s.skip(1).len() implies s.skip(1)[i] != '\0' by {
            assert(s[i + 1] != '\0');
        }
        lemma_units_not_nul(s.skip(1));
        let a = utf16::char_units(s[0]);
        let b = utf16::units(s.skip(1));
        lemma_char_not_nul(s[0]);
        assert forall|i: int| 0 <= i < (a + b).len() implies (a + b)[i] != 0 by {
            if i < a.len() {
                assert((a + b)[i] == a[i]);
            } else {
                assert((a + b)[i] == b[i - a.len()]);
            }
        }
    }
}

/// Bytes made of code units give these code units back.
proof fn lemma_bytes_round_trip(u: Seq<u16>)
    ensures
        le_units(le_bytes(u)) == u,
{
    let b = le_bytes(u);
    assert forall|i: int| 0 <= i < u.len() implies #[trigger] le_units(b)[i] == u[i] by {
        assert(b[2 * i] == (u[i] % 256) as u8);
        assert((2 * i + 1) / 2 == i);
        assert(b[2 * i + 1] == (u[i] / 256) as u8);
    }
    assert(le_units(b) =~= u);
}

/// What is written to the registry is read back, whatever zeros the registry adds
/// behind it. A text with the character zero in it would be cut there.
pub proof fn law_registry_round_trip(s: Seq<char>, padding: Seq<u16>)
    requires
        !s.contains('\0'),
    ensures
        utf16::decoded(up_to_nul(le_units(le_bytes(utf16::units(s).push(0))))) == s,
        utf16::decoded(up_to_nul(le_units(le_bytes(utf16::units(s).push(0) + padding)))) == s,
{
    let u = utf16::units(s);
    lemma_units_not_nul(s);
    lemma_bytes_round_trip(u.push(0));
    lemma_bytes_round_trip(u.push(0) + padding);
    lemma_up_to_nul(u, Seq::empty());
    lemma_up_to_nul(u, padding);
    assert(u.push(0) =~= u + seq![0u16] + Seq::<u16>::empty());
    assert(u.push(0) + padding =~= u + seq![0u16] + padding);
    utf16::lemma_units_round_trip(s);
}

/// Whether a segment stands for a directory or file of its own.
pub open spec fn proper(s: Seq<char>) -> bool {
    s.len() > 0 && s != "."@ && s != ".."@ && !s.contains('\\')
}

/// Parts without a separator stay so when the empty ones are left out.
proof fn lemma_nonempty(ps: Seq<Seq<char>>)
    requires
        forall|i: int| 0 <= i < ps.len() ==> !(#[trigger] ps[i]).contains('\\'),
    ensures
        forall|i: int|
            0 <= i < nonempty(ps).len() ==> {
                let q = #[trigger] nonempty(ps)[i];
                q.len() > 0 && !q.contains('\\')
            },
    decreases ps.len(),
{
    if ps.len() > 0 {
        let before = nonempty(ps.drop_last());
        lemma_nonempty(ps.drop_last());
        assert(!ps[ps.len() - 1].contains('\\'));
        assert forall|i: int| 0 <= i < nonempty(ps).len() implies {
            let q = #[trigger] nonempty(ps)[i];
            q.len() > 0 && !q.contains('\\')
        } by {
            if i < before.len() {
                assert(nonempty(ps)[i] == before[i]);
            }
        }
    }
}

/// The parts of a split text do not hold the separator.
proof fn lemma_split_parts(s: Seq<char>)
    ensures
        forall|i: int|
            0 <= i < text::split(s, '\\').len() ==> !(#[trigger] text::split(
                s,
                '\\',
            )[i]).contains('\\'),
    decreases s.len(),
{
    text::lemma_first_index(s, '\\');
    let i = text::first_index(s, '\\');
    if i < s.len() {
        lemma_split_parts(s.skip(i + 1));
        let front = seq![s.take(i)];
        let rest = text::split(s.skip(i + 1), '\\');
        assert forall|k: int| 0 <= k < (front + rest).len() implies !(#[trigger] (front
            + rest)[k]).contains('\\') by {
            if k > 0 {
                assert((front + rest)[k] == rest[k - 1]);
            }
        }
    }
}

/// The segments of a path are neither empty nor hold a separator.
proof fn lemma_segments(p: Seq<char>)
    ensures
        forall|i: int|
            0 <= i < segments(p).len() ==> {
                let q = #[trigger] segments(p)[i];
                q.len() > 0 && !q.contains('\\')
            },
{
    lemma_split_parts(p);
    lemma_nonempty(text::split(p, '\\'));
}

/// Folding leaves proper segments only.
proof fn lemma_folded(segs: Seq<Seq<char>>)
    requires
        forall|i: int|
            0 <= i < segs.len() ==> (#[trigger] segs[i]).len() > 0 && !segs[i].contains('\\'),
    ensures
        forall|i: int| 0 <= i < folded(segs).len() ==> proper(#[trigger] folded(segs)[i]),
    decreases segs.len(),
{
    if segs.len() > 0 {
        let before = folded(segs.drop_last());
        lemma_folded(segs.drop_last());
        assert(segs[segs.len() - 1].len() > 0);
        assert forall|i: int| 0 <= i < folded(segs).len() implies proper(
            #[trigger] folded(segs)[i],
        ) by {
            if i < before.len() {
                assert(folded(segs)[i] == before[i]);
            }
        }
    }
}

/// Proper segments stay as they are when they are folded.
proof fn lemma_folded_again(segs: Seq<Seq<char>>)
    requires
        forall|i: int| 0 <= i < segs.len() ==> proper(#[trigger] segs[i]),
    ensures
        folded(segs) == segs,
    decreases segs.len(),
{
    if segs.len() > 0 {
        lemma_folded_again(segs.drop_last());
        assert(segs.drop_last().push(segs.last()) =~= segs);
    }
}

/// A separator and a part without one at the end of a text: the split ends with
/// that part.
proof fn lemma_split_back(s: Seq<char>, last: Seq<char>)
    requires
        !last.contains('\\'),
    ensures
        text::split(s + seq!['\\'] + last, '\\') == text::split(s, '\\').push(last),
    decreases s.len(),
{
    let t = s + seq!['\\'] + last;
    text::lemma_first_index(s, '\\');
    let i = text::first_index(s, '\\');
    if i < s.len() {
        text::lemma_first_index_is(t, '\\', i);
        assert(t.take(i) =~= s.take(i));
        assert(t.skip(i + 1) =~= s.skip(i + 1) + seq!['\\'] + last);
        lemma_split_back(s.skip(i + 1), last);
        assert(seq![s.take(i)] + text::split(s.skip(i + 1), '\\').push(last) =~= (seq![s.take(i)]
            + text::split(s.skip(i + 1), '\\')).push(last));
    } else {
        assert(!s.contains('\\'));
        text::lemma_first_index_concat(s, '\\', last);
        text::lemma_first_index_is(last, '\\', last.len() as int);
        assert(text::split(last, '\\') =~= seq![last]);
        assert(text::split(t, '\\') =~= seq![s] + seq![last]);
        assert(text::split(s, '\\').push(last) =~= seq![s].push(last));
    }
}

/// Joined segments are split into these segments.
proof fn lemma_joined_split(segs: Seq<Seq<char>>)
    requires
        segs.len() > 0,
        forall|i: int| 0 <= i < segs.len() ==> !(#[trigger] segs[i]).contains('\\'),
    ensures
        text::split(text::joined(segs, seq!['\\']), '\\') == segs,
    decreases segs.len(),
{
    if segs.len() == 1 {
        assert(!segs[0].contains('\\'));
        text::lemma_first_index_is(segs[0], '\\', segs[0].len() as int);
        assert(seq![segs[0]] =~= segs);
    } else {
        let front = segs.drop_last();
        lemma_joined_split(front);
        assert(!segs[segs.len() - 1].contains('\\'));
        lemma_split_back(text::joined(front, seq!['\\']), segs.last());
        assert(front.push(segs.last()) =~= segs);
    }
}

/// A path that starts with a drive is clean once it is normalized: its segments
/// are neither empty, nor `.`, nor `..`, and normalizing it again changes nothing.
pub proof fn law_drive_path_is_clean(path: Seq<char>)
    requires
        drive_path(plain_path(path)),
    ensures
        drive_path(normalized(path)),
        forall|i: int|
            0 <= i < segments(normalized(path).skip(2)).len() ==> proper(
                #[trigger] segments(normalized(path).skip(2))[i],
            ),
        normalized(normalized(path)) == normalized(path),
{
    reveal_strlit("\\\\?\\UNC\\");
    reveal_strlit("\\\\?\\");
    reveal_strlit("\\\\");
    let p = plain_path(path);
    let f = folded(segments(p.skip(2)));
    let n = normalized(path);
    assert(!unc_path(p)) by {
        if unc_path(p) {
            assert(p.subrange(0, 2)[1] == p[1]);
        }
    }
    lemma_segments(p.skip(2));
    lemma_folded(segments(p.skip(2)));
    lemma_folded_again(f);
    assert(n[0] == p[0] && n[1] == p[1] && n.len() >= 2);
    assert(n.take(2) =~= p.take(2));
    assert(plain_path(n) == n) by {
        if text::starts_with(n, "\\\\?\\UNC\\"@) {
            assert(n.subrange(0, 8)[1] == n[1]);
        }
        if text::starts_with(n, "\\\\?\\"@) {
            assert(n.subrange(0, 4)[1] == n[1]);
        }
    }
    assert(!unc_path(n)) by {
        if unc_path(n) {
            assert(n.subrange(0, 2)[1] == n[1]);
        }
    }
    if f.len() == 0 {
        let e = Seq::<char>::empty();
        assert(n.skip(2) =~= e);
        assert(text::split(e, '\\') =~= seq![e]);
        assert(seq![e] + Seq::<Seq<char>>::empty() =~= seq![e]);
        lemma_empty_first(Seq::empty());
        assert(segments(e) =~= Seq::<Seq<char>>::empty());
    } else {
        let j = text::joined(f, seq!['\\']);
        let e = Seq::<char>::empty();
        assert(n.skip(2) =~= e + seq!['\\'] + j);
        text::lemma_first_index_concat(e, '\\', j);
        assert forall|i: int| 0 <= i < f.len() implies (#[trigger] f[i]).len() > 0
            && !f[i].contains('\\') by {
            assert(proper(f[i]));
        }
        lemma_joined_split(f);
        assert(text::split(n.skip(2), '\\') =~= seq![e] + f);
        lemma_empty_first(f);
        lemma_none_empty(f);
        assert(segments(n.skip(2)) =~= f);
    }
}

/// An empty part before others is left out.
proof fn lemma_empty_first(ps: Seq<Seq<char>>)
    ensures
        nonempty(seq![Seq::<char>::empty()] + ps) == nonempty(ps),
    decreases ps.len(),
{
    let all = seq![Seq::<char>::empty()] + ps;
    if ps.len() == 0 {
        assert(all.drop_last() =~= ps);
        assert(all.last().len() == 0);
        assert(nonempty(all) == nonempty(all.drop_last()));
    } else {
        assert(all.drop_last() =~= seq![Seq::<char>::empty()] + ps.drop_last());
        lemma_empty_first(ps.drop_last());
        assert(all.last() == ps.last());
    }
}

/// Where no part is empty none is left out.
proof fn lemma_none_empty(ps: Seq<Seq<char>>)
    requires
        forall|i: int| 0 <= i < ps.len() ==> (#[trigger] ps[i]).len() > 0,
    ensures
        nonempty(ps) == ps,
    decreases ps.len(),
{
    if ps.len() > 0 {
        lemma_none_empty(ps.drop_last());
        assert(ps[ps.len() - 1].len() > 0);
        assert(ps.drop_last().push(ps.last()) =~= ps);
    }
}

/// Two segments and those behind them, joined: a root and the segments below it.
proof fn lemma_joined_below(a: Seq<char>, b: Seq<char>, f: Seq<Seq<char>>)
    ensures
        text::joined(seq![a, b] + f, seq!['\\']) == below(a + seq!['\\'] + b, f),
    decreases f.len(),
{
    let sep = seq!['\\'];
    let all = seq![a, b] + f;
    if f.len() == 0 {
        assert(all.drop_last() =~= seq![a]);
        assert(text::joined(all.drop_last(), sep) == a);
        assert(all.last() == b);
    } else {
        lemma_joined_below(a, b, f.drop_last());
        assert(all.drop_last() =~= seq![a, b] + f.drop_last());
        assert(all.last() == f.last());
        if f.len() == 1 {
            assert(f.drop_last() =~= Seq::<Seq<char>>::empty());
            assert(f.last() == f[0]);
        } else {
            let r = a + sep + b;
            let j = text::joined(f.drop_last(), sep);
            assert(r + sep + j + sep + f.last() =~= r + sep + (j + sep + f.last()));
        }
    }
}

/// A path that starts with a server and a share, and goes on, is clean once it is
/// normalized: behind the share its segments are neither empty, nor `.`, nor `..`, and
/// normalizing it again changes nothing. A server `?` is left out of the latter, for
/// its path reads as an extended one.
pub proof fn law_unc_path_is_clean(path: Seq<char>)
    requires
        unc_path(plain_path(path)),
        segments(plain_path(path)).len() >= 3,
    ensures
        segments(normalized(path)).take(2) == segments(plain_path(path)).take(2),
        forall|i: int|
            2 <= i < segments(normalized(path)).len() ==> proper(
                #[trigger] segments(normalized(path))[i],
            ),
        segments(plain_path(path))[0] != "?"@ ==> normalized(normalized(path)) == normalized(path),
{
    reveal_strlit("\\\\?\\UNC\\");
    reveal_strlit("\\\\?\\");
    reveal_strlit("\\\\");
    reveal_strlit("?");
    let sep = seq!['\\'];
    let e = Seq::<char>::empty();
    let p = plain_path(path);
    let parts = segments(p);
    let (a, b) = (parts[0], parts[1]);
    let rest = parts.skip(2);
    let f = folded(rest);
    let n = normalized(path);
    lemma_segments(p);
    assert forall|i: int| 0 <= i < rest.len() implies (#[trigger] rest[i]).len() > 0
        && !rest[i].contains('\\') by {
        assert(rest[i] == parts[i + 2]);
    }
    lemma_folded(rest);
    lemma_folded_again(f);
    let all = seq![a, b] + f;
    assert forall|i: int| 0 <= i < all.len() implies (#[trigger] all[i]).len() > 0
        && !all[i].contains('\\') by {
        if i >= 2 {
            assert(all[i] == f[i - 2]);
            assert(proper(f[i - 2]));
        } else {
            assert(all[i] == parts[i]);
        }
    }
    let j = text::joined(all, sep);
    lemma_joined_below(a, b, f);
    lemma_joined_split(all);
    lemma_none_empty(all);
    assert(n =~= e + sep + (e + sep + j));
    text::lemma_first_index_concat(e, '\\', e + sep + j);
    text::lemma_first_index_concat(e, '\\', j);
    assert(text::split(e + sep + j, '\\') =~= seq![e] + all);
    assert(text::split(n, '\\') =~= seq![e] + (seq![e] + all));
    lemma_empty_first(seq![e] + all);
    lemma_empty_first(all);
    assert(segments(n) == all);
    assert(all.take(2) =~= parts.take(2));
    assert forall|i: int| 2 <= i < segments(n).len() implies proper(
        #[trigger] segments(n)[i],
    ) by {
        assert(segments(n)[i] == f[i - 2]);
    }
    if a != "?"@ {
        assert(n[0] == '\\' && n[1] == '\\');
        assert(n.subrange(0, 2) =~= "\\\\"@);
        assert(a[0] == n[2]);
        assert(plain_path(n) == n) by {
            if text::starts_with(n, "\\\\?\\"@) || text::starts_with(n, "\\\\?\\UNC\\"@) {
                if text::starts_with(n, "\\\\?\\"@) {
                    assert(n.subrange(0, 4)[2] == n[2] && n.subrange(0, 4)[3] == n[3]);
                } else {
                    assert(n.subrange(0, 8)[2] == n[2] && n.subrange(0, 8)[3] == n[3]);
                }
                if a.len() > 1 {
                    assert(a[1] == n[3]);
                }
                assert(a =~= "?"@);
            }
        }
        assert(all.skip(2) =~= f);
    }
}

/// The command line is the program in quotes, and each argument stands behind a space, in the
/// order in which they are given.
pub proof fn law_command_line(exe: Seq<char>, args: Seq<Seq<char>>, arg: Seq<char>)
    ensures
        command_line(exe, Seq::empty()) == "\""@ + exe + "\""@,
        command_line(exe, args.push(arg)) == command_line(exe, args) + seq![' '] + arg,
{
    assert(command_line(exe, Seq::empty()) =~= "\""@ + exe + "\""@);
    assert(args.push(arg).drop_last() =~= args);
    assert(command_line(exe, args.push(arg)) =~= command_line(exe, args) + seq![' '] + arg);
}

/// Each argument is one text.
pub proof fn law_arguments_are_texts(args: Seq<&str>)
    ensures
        arg_texts(args).len() == args.len(),
        forall|i: int| 0 <= i < args.len() ==> #[trigger] arg_texts(args)[i] == args[i]@,
{
}

/// What is said of a call that failed names the call and its code.
pub proof fn law_call_errors(api: Seq<char>, code: u32)
    ensures
        call_error(api, code) == api + " failed (win32 error "@ + num::decimal(code as nat) + ")"@,
{
}

/// The prefix of an extended path is taken off, once: that of a server leaves two backslashes.
/// Other paths stay as they are.
pub proof fn law_plain_paths(rest: Seq<char>, path: Seq<char>)
    ensures
        plain_path("\\\\?\\UNC\\"@ + rest) == "\\\\"@ + rest,
        !text::starts_with(rest, "UNC\\"@) ==> plain_path("\\\\?\\"@ + rest) == rest,
        !text::starts_with(path, "\\\\?\\"@) ==> plain_path(path) == path,
{
    reveal_strlit("\\\\?\\UNC\\");
    reveal_strlit("\\\\?\\");
    reveal_strlit("\\\\");
    reveal_strlit("UNC\\");
    let u = "\\\\?\\UNC\\"@ + rest;
    assert(u.subrange(0, 8) =~= "\\\\?\\UNC\\"@);
    assert(u.skip(8) =~= rest);
    let x = "\\\\?\\"@ + rest;
    assert(x.subrange(0, 4) =~= "\\\\?\\"@);
    assert(x.skip(4) =~= rest);
    if text::starts_with(x, "\\\\?\\UNC\\"@) {
        assert(x.subrange(0, 8) =~= "\\\\?\\UNC\\"@);
        assert(rest.subrange(0, 4) =~= x.subrange(0, 8).skip(4));
        assert("\\\\?\\UNC\\"@.skip(4) =~= "UNC\\"@);
    }
    if text::starts_with(path, "\\\\?\\UNC\\"@) {
        assert(path.subrange(0, 4) =~= path.subrange(0, 8).take(4));
        assert("\\\\?\\UNC\\"@.take(4) =~= "\\\\?\\"@);
    }
}

/// The segments of a path are what stands between backslashes, in order, without what is empty.
pub proof fn law_segments(p: Seq<char>, s: Seq<char>)
    requires
        !s.contains('\\'),
    ensures
        s.len() > 0 ==> segments(s) == seq![s] && segments(p + seq!['\\'] + s) == segments(p).push(
            s,
        ),
        s.len() == 0 ==> segments(s).len() == 0 && segments(p + seq!['\\'] + s) == segments(p),
{
    text::lemma_first_index_is(s, '\\', s.len() as int);
    assert(text::split(s, '\\') =~= seq![s]);
    let none = Seq::<Seq<char>>::empty();
    assert(seq![s].drop_last() =~= none);
    assert(nonempty(none) =~= none);
    assert(none.push(s) =~= seq![s]);
    assert(seq![s].last() == s);
    lemma_split_back(p, s);
    let ps = text::split(p, '\\').push(s);
    assert(ps.drop_last() =~= text::split(p, '\\'));
    assert(ps.last() == s);
}

/// A segment that names the directory itself says nothing, and one that names the directory
/// above takes the segment before it away; above the root there is nothing to take away. Every
/// other segment stays.
pub proof fn law_folding(segs: Seq<Seq<char>>, s: Seq<char>)
    ensures
        folded(Seq::empty()) == Seq::<Seq<char>>::empty(),
        s != "."@ && s != ".."@ ==> folded(segs.push(s)) == folded(segs).push(s) && folded(
            segs.push(s).push(".."@),
        ) == folded(segs),
        folded(segs.push("."@)) == folded(segs),
        folded(segs).len() == 0 ==> folded(segs.push(".."@)).len() == 0,
        folded(segs).len() > 0 ==> folded(segs.push(".."@)) == folded(segs).drop_last(),
{
    reveal_strlit(".");
    reveal_strlit("..");
    assert("."@.len() != ".."@.len());
    assert(segs.push(s).drop_last() =~= segs);
    assert(segs.push("."@).drop_last() =~= segs);
    assert(segs.push(".."@).drop_last() =~= segs);
    assert(segs.push(s).push(".."@).drop_last() =~= segs.push(s));
    assert(folded(segs).push(s).drop_last() =~= folded(segs));
    assert(segs.push(s).last() == s);
    assert(segs.push("."@).last() == "."@);
    assert(segs.push(".."@).last() == ".."@);
    let more = segs.push(s).push(".."@);
    assert(more.last() == ".."@);
    if s != "."@ && s != ".."@ {
        assert(folded(segs.push(s)) == folded(segs).push(s));
        assert(folded(more.drop_last()) == folded(segs).push(s));
        assert(folded(more) == folded(segs).push(s).drop_last());
    }
}

/// A path below a root is the root with each segment behind a backslash.
pub proof fn law_below(root: Seq<char>, segs: Seq<Seq<char>>, s: Seq<char>)
    ensures
        below(root, Seq::empty()) == root,
        below(root, segs.push(s)) == below(root, segs) + seq!['\\'] + s,
{
    let sep = seq!['\\'];
    assert(segs.push(s).drop_last() =~= segs);
    assert(segs.push(s).last() == s);
    if segs.len() == 0 {
        assert(segs.push(s)[0] == s);
        assert(text::joined(segs.push(s), sep) == s);
    } else {
        let j = text::joined(segs, sep);
        assert(root + sep + (j + sep + s) =~= root + sep + j + sep + s);
    }
}

/// A path below a drive keeps the drive and has the segments behind it folded.
pub proof fn law_drive_paths_are_folded(drive: char, rest: Seq<char>)
    requires
        (drive as u32) < 0x80,
    ensures
        normalized(seq![drive, ':'] + rest) == below(seq![drive, ':'], folded(segments(rest))),
{
    reveal_strlit("\\\\?\\UNC\\");
    reveal_strlit("\\\\?\\");
    reveal_strlit("\\\\");
    let p = seq![drive, ':'] + rest;
    assert(p[1] == ':');
    if text::starts_with(p, "\\\\?\\UNC\\"@) {
        assert(p.subrange(0, 8)[1] == p[1]);
    }
    if text::starts_with(p, "\\\\?\\"@) {
        assert(p.subrange(0, 4)[1] == p[1]);
    }
    if text::starts_with(p, "\\\\"@) {
        assert(p.subrange(0, 2)[1] == p[1]);
    }
    assert(p.take(2) =~= seq![drive, ':']);
    assert(p.skip(2) =~= rest);
}

/// A path below the share of a server keeps both and has the segments behind them folded;
/// without any it stays as it is. A server `?` is left out: its path reads as an extended one.
pub proof fn law_unc_paths_are_folded(server: Seq<char>, share: Seq<char>, rest: Seq<char>)
    requires
        server.len() > 0 && !server.contains('\\') && server != "?"@,
        share.len() > 0 && !share.contains('\\'),
    ensures
        ({
            let root = "\\\\"@ + server + seq!['\\'] + share;
            &&& normalized(root) == root
            &&& segments(rest).len() == 0 ==> normalized(root + seq!['\\'] + rest) == root + seq![
                '\\',
            ] + rest
            &&& segments(rest).len() > 0 ==> normalized(root + seq!['\\'] + rest) == below(
                root,
                folded(segments(rest)),
            )
        }),
{
    reveal_strlit("\\\\");
    let root = "\\\\"@ + server + seq!['\\'] + share;
    let e = Seq::<char>::empty();
    law_segments(e, e);
    assert(e + seq!['\\'] + e =~= seq!['\\']);
    law_segments(seq!['\\'], server);
    assert(seq!['\\'] + seq!['\\'] + server =~= "\\\\"@ + server);
    law_segments("\\\\"@ + server, share);
    assert(segments(root) =~= seq![server, share]);
    lemma_server_is_plain(server, seq!['\\'] + share);
    assert("\\\\"@ + server + (seq!['\\'] + share) =~= root);
    assert(root.subrange(0, 2) =~= "\\\\"@);
    let p = root + seq!['\\'] + rest;
    let tail = seq!['\\'] + share + seq!['\\'] + rest;
    lemma_server_is_plain(server, tail);
    assert("\\\\"@ + server + tail =~= p);
    assert(p.subrange(0, 2) =~= "\\\\"@);
    lemma_segments_concat(root, rest);
    assert(segments(p) =~= seq![server, share] + segments(rest));
    if segments(rest).len() > 0 {
        assert(segments(p).skip(2) =~= segments(rest));
        assert(segments(p)[0] == server && segments(p)[1] == share);
    }
}

/// A path below a server is not an extended one, unless the server is `?`.
proof fn lemma_server_is_plain(server: Seq<char>, tail: Seq<char>)
    requires
        server.len() > 0 && !server.contains('\\') && server != "?"@,
        tail.len() > 0 && tail[0] == '\\',
    ensures
        plain_path("\\\\"@ + server + tail) == "\\\\"@ + server + tail,
{
    reveal_strlit("\\\\?\\UNC\\");
    reveal_strlit("\\\\?\\");
    reveal_strlit("\\\\");
    reveal_strlit("?");
    let p = "\\\\"@ + server + tail;
    assert(p[2] == server[0]);
    assert(server.len() > 1 ==> p[3] == server[1]);
    assert(server.len() > 1 ==> server[1] != '\\');
    if server.len() == 1 && server[0] == '?' {
        assert(server =~= "?"@);
    }
    if text::starts_with(p, "\\\\?\\"@) {
        assert(p.subrange(0, 4)[2] == p[2]);
        assert(p.subrange(0, 4)[3] == p[3]);
    }
    if text::starts_with(p, "\\\\?\\UNC\\"@) {
        assert(p.subrange(0, 8)[2] == p[2]);
        assert(p.subrange(0, 8)[3] == p[3]);
    }
}

/// The segments of two paths with a backslash between them.
proof fn lemma_segments_concat(p: Seq<char>, rest: Seq<char>)
    ensures
        segments(p + seq!['\\'] + rest) == segments(p) + segments(rest),
    decreases rest.len(),
{
    let i = text::first_index(rest, '\\');
    text::lemma_first_index(rest, '\\');
    if i == rest.len() {
        assert(!rest.contains('\\'));
        law_segments(p, rest);
        assert(segments(p) + segments(rest) =~= if rest.len() > 0 {
            segments(p).push(rest)
        } else {
            segments(p)
        });
    } else {
        let a = rest.take(i);
        let b = rest.skip(i + 1);
        assert(rest =~= a + seq!['\\'] + b);
        assert(!a.contains('\\'));
        lemma_segments_concat(p + seq!['\\'] + a, b);
        lemma_segments_concat(a, b);
        law_segments(p, a);
        assert(p + seq!['\\'] + rest =~= p + seq!['\\'] + a + seq!['\\'] + b);
        assert(segments(p) + (segments(a) + segments(b)) =~= segments(p + seq!['\\'] + a)
            + segments(b));
    }
}

/// A path that starts neither with a drive nor with a server stays as it is.
pub proof fn law_other_paths_stay(path: Seq<char>)
    requires
        !text::starts_with(path, "\\\\"@),
        !(path.len() >= 2 && (path[0] as u32) < 0x80 && path[1] == ':'),
    ensures
        normalized(path) == path,
{
    reveal_strlit("\\\\?\\UNC\\");
    reveal_strlit("\\\\?\\");
    reveal_strlit("\\\\");
    if text::starts_with(path, "\\\\?\\"@) {
        assert(path.subrange(0, 2) =~= path.subrange(0, 4).take(2));
        assert("\\\\?\\"@.take(2) =~= "\\\\"@);
    }
    law_plain_paths(path, path);
}

/// An extended path is normalized as the path that it stands for.
pub proof fn law_extended_paths(rest: Seq<char>)
    requires
        plain_path(plain_path(rest)) == plain_path(rest),
    ensures
        normalized(rest) == normalized(plain_path(rest)),
{
}

/// Code units and bytes: two bytes for each unit, the low one first, and what stands before the
/// first zero is the text.
pub proof fn law_units_and_bytes(u: Seq<u16>, b: Seq<u8>, rest: Seq<u16>)
    ensures
        le_bytes(u).len() == 2 * u.len(),
        forall|i: int|
            0 <= i < u.len() ==> #[trigger] u[i] == le_bytes(u)[2 * i] + 256 * le_bytes(u)[2 * i
                + 1],
        le_units(b).len() == b.len() / 2,
        forall|i: int|
            0 <= i < b.len() / 2 ==> #[trigger] le_units(b)[i] == b[2 * i] + 256 * b[2 * i + 1],
        !u.contains(0) ==> up_to_nul(u) == u && up_to_nul(u + seq![0u16] + rest) == u,
{
    assert forall|i: int| 0 <= i < u.len() implies #[trigger] u[i] == le_bytes(u)[2 * i] + 256
        * le_bytes(u)[2 * i + 1] by {
        assert(le_bytes(u)[2 * i] == (u[i] % 256) as u8);
        assert((2 * i + 1) / 2 == i);
        assert(le_bytes(u)[2 * i + 1] == (u[i] / 256) as u8);
    }
    if !u.contains(0) {
        assert forall|i: int| 0 <= i < u.len() implies u[i] != 0 by {
            assert(u.contains(u[i]));
        }
        lemma_up_to_nul(u, rest);
        lemma_no_nul(u);
    }
}

/// Code units that hold no zero.
proof fn lemma_no_nul(u: Seq<u16>)
    requires
        forall|i: int| 0 <= i < u.len() ==> u[i] != 0,
    ensures
        up_to_nul(u) == u,
    decreases u.len(),
{
    if u.len() > 0 {
        lemma_no_nul(u.skip(1));
        assert(seq![u[0]] + u.skip(1) =~= u);
    }
}

/// Where the command line is registered, and the numbers of the registry.
pub proof fn law_registry()
    ensures
        RUN_SUBKEY@ == "Software\\Microsoft\\Windows\\CurrentVersion\\Run"@,
        VALUE_NAME@ == "tbg-lite"@,
        ERROR_SUCCESS == 0,
        ERROR_FILE_NOT_FOUND == 2,
        REG_SZ == 1,
{
}

// ---------------------------------------------------------------------------
// Functions
// ---------------------------------------------------------------------------

/// What is said of a call that failed.
fn win32_err(api: &str, code: u32) -> (r: String)
    ensures
        r@ == call_error(api@, code),
{
    let mut r: String = api.to_owned();
    r.push_str(" failed (win32 error ");
    r.push_str(num::decimal_text(code as u64).as_str());
    r.push_str(")");
    r
}

/// The code units of a text, with a zero behind them.
pub fn wide(s: &str) -> (r: Vec<u16>)
    ensures
        r@ == utf16::units(s@).push(0),
{
    let mut r: Vec<u16> = utf16::encode(s);
    r.push(0);
    r
}

/// The command line of a program, in quotes, and its arguments.
pub fn build_command(exe: &str, args: &[&str]) -> (r: String)
    ensures
        r@ == command_line(exe@, arg_texts(args@)),
{
    let mut r: String = "\"".to_owned();
    r.push_str(exe);
    r.push_str("\"");
    let ghost head = r@;
    let ghost all = arg_texts(args@);
    let mut i: usize = 0;
    assert(all.take(0) =~= Seq::<Seq<char>>::empty());
    assert(r@ =~= head + spaced(all.take(0)));
    while i < args.len()
        invariant
            i <= args@.len(),
            all == arg_texts(args@),
            r@ == head + spaced(all.take(i as int)),
        decreases args@.len() - i,
    {
        r.push(' ');
        r.push_str(args[i]);
        proof {
            let next = all.take(i + 1);
            assert(next.drop_last() =~= all.take(i as int));
            assert(r@ =~= head + spaced(next));
        }
        i += 1;
    }
    assert(all.take(i as int) =~= all);
    r
}

/// The segments of a path.
fn segment_list(p: &[char]) -> (r: Vec<Vec<char>>)
    ensures
        text::pieces(r@) == segments(p@),
{
    let parts: Vec<Vec<char>> = text::split_chars(p, '\\');
    let ghost all = text::pieces(parts@);
    let mut r: Vec<Vec<char>> = Vec::new();
    let mut i: usize = 0;
    assert(all.take(0) =~= Seq::<Seq<char>>::empty());
    assert(text::pieces(r@) =~= nonempty(all.take(0)));
    while i < parts.len()
        invariant
            i <= parts@.len(),
            all == text::pieces(parts@),
            text::pieces(r@) == nonempty(all.take(i as int)),
        decreases parts@.len() - i,
    {
        let ghost was = r@;
        proof {
            let next = all.take(i + 1);
            assert(next.drop_last() =~= all.take(i as int));
            assert(next.last() == parts@[i as int]@);
        }
        if parts[i].len() > 0 {
            r.push(text::copy_range(parts[i].as_slice(), 0, parts[i].len()));
            proof {
                assert(parts@[i as int]@.subrange(0, parts@[i as int]@.len() as int)
                    =~= parts@[i as int]@);
                assert(text::pieces(r@) =~= text::pieces(was).push(parts@[i as int]@));
            }
        }
        i += 1;
    }
    assert(all.take(i as int) =~= all);
    r
}

/// Segments, from the one at `from` on, folded.
fn fold_segments(segs: &Vec<Vec<char>>, from: usize) -> (r: Vec<Vec<char>>)
    requires
        from <= segs@.len(),
    ensures
        text::pieces(r@) == folded(text::pieces(segs@).skip(from as int)),
{
    let ghost all = text::pieces(segs@).skip(from as int);
    let mut r: Vec<Vec<char>> = Vec::new();
    let mut i: usize = from;
    assert(all.take(0) =~= Seq::<Seq<char>>::empty());
    assert(text::pieces(r@) =~= folded(all.take(0)));
    while i < segs.len()
        invariant
            from <= i <= segs@.len(),
            all == text::pieces(segs@).skip(from as int),
            text::pieces(r@) == folded(all.take(i - from)),
        decreases segs@.len() - i,
    {
        let ghost was = r@;
        proof {
            let next = all.take(i - from + 1);
            assert(next.drop_last() =~= all.take(i - from));
            assert(next.last() == segs@[i as int]@);
        }
        if text::is_text(segs[i].as_slice(), ".") {
        } else if text::is_text(segs[i].as_slice(), "..") {
            proof {
                reveal_strlit(".");
                reveal_strlit("..");
            }
            r.pop();
            proof {
                if was.len() > 0 {
                    assert(text::pieces(r@) =~= text::pieces(was).drop_last());
                } else {
                    assert(text::pieces(r@) =~= text::pieces(was));
                }
            }
        } else {
            r.push(text::copy_range(segs[i].as_slice(), 0, segs[i].len()));
            proof {
                assert(segs@[i as int]@.subrange(0, segs@[i as int]@.len() as int)
                    =~= segs@[i as int]@);
                assert(text::pieces(r@) =~= text::pieces(was).push(segs@[i as int]@));
            }
        }
        i += 1;
    }
    assert(all.take(i - from) =~= all);
    r
}

/// A root and the segments below it as a path.
fn path_below(root: &str, segs: &Vec<Vec<char>>) -> (r: String)
    ensures
        r@ == below(root@, text::pieces(segs@)),
{
    let mut r: String = root.to_owned();
    if segs.len() > 0 {
        r.push('\\');
        r.push_str(text::text_of(text::join_pieces(segs, '\\').as_slice()).as_str());
        assert(r@ =~= root@ + seq!['\\'] + text::joined(text::pieces(segs@), seq!['\\']));
    }
    r
}

/// A path without the prefix of an extended path.
fn without_prefix(path: &[char]) -> (r: Vec<char>)
    ensures
        r@ == plain_path(path@),
{
    let n: usize = path.len();
    proof {
        reveal_strlit("\\\\?\\UNC\\");
        reveal_strlit("\\\\?\\");
        reveal_strlit("\\\\");
    }
    if text::stands_at(path, text::chars_of("\\\\?\\UNC\\").as_slice(), 0) {
        let mut r: Vec<char> = text::chars_of("\\\\");
        let mut rest: Vec<char> = text::copy_range(path, 8, n);
        r.append(&mut rest);
        assert(r@ =~= plain_path(path@));
        r
    } else if text::stands_at(path, text::chars_of("\\\\?\\").as_slice(), 0) {
        let r: Vec<char> = text::copy_range(path, 4, n);
        assert(r@ =~= plain_path(path@));
        r
    } else {
        let r: Vec<char> = text::copy_range(path, 0, n);
        assert(r@ =~= path@);
        r
    }
}

/// The plain form of a path.
pub fn normalize_win_path(path: &str) -> (r: String)
    ensures
        r@ == normalized(path@),
{
    let p: Vec<char> = without_prefix(text::chars_of(path).as_slice());
    let n: usize = p.len();
    if text::stands_at(p.as_slice(), text::chars_of("\\\\").as_slice(), 0) {
        let parts: Vec<Vec<char>> = segment_list(p.as_slice());
        let ghost all = text::pieces(parts@);
        if parts.len() < 3 {
            return text::text_of(p.as_slice());
        }
        proof {
            assert(all[0] == parts@[0]@);
            assert(all[1] == parts@[1]@);
        }
        let mut root: String = "\\\\".to_owned();
        root.push_str(text::text_of(parts[0].as_slice()).as_str());
        root.push('\\');
        root.push_str(text::text_of(parts[1].as_slice()).as_str());
        assert(root@ =~= "\\\\"@ + all[0] + seq!['\\'] + all[1]);
        path_below(root.as_str(), &fold_segments(&parts, 2))
    } else if n >= 2 && (p[0] as u32) < 0x80 && p[1] == ':' {
        let root: Vec<char> = text::copy_range(p.as_slice(), 0, 2);
        let rest: Vec<char> = text::copy_range(p.as_slice(), 2, n);
        proof {
            assert(root@ =~= p@.take(2));
            assert(rest@ =~= p@.skip(2));
        }
        let segs: Vec<Vec<char>> = segment_list(rest.as_slice());
        assert(text::pieces(segs@).skip(0) =~= text::pieces(segs@));
        path_below(text::text_of(root.as_slice()).as_str(), &fold_segments(&segs, 0))
    } else {
        text::text_of(p.as_slice())
    }
}

/// The bytes of a text in the registry.
pub fn reg_sz_string_to_bytes(s: &str) -> (r: Vec<u8>)
    ensures
        r@ == le_bytes(utf16::units(s@).push(0)),
{
    let u: Vec<u16> = wide(s);
    let mut r: Vec<u8> = Vec::new();
    let mut i: usize = 0;
    while i < u.len()
        invariant
            i <= u@.len(),
            r@ == le_bytes(u@.take(i as int)),
        decreases u@.len() - i,
    {
        let ghost was = r@;
        r.push((u[i] % 256) as u8);
        r.push((u[i] / 256) as u8);
        proof {
            let next = u@.take(i + 1);
            assert forall|k: int| 0 <= k < 2 * next.len() implies r@[k] == le_bytes(next)[k] by {
                if k < 2 * i {
                    assert(r@[k] == was[k]);
                    assert(was[k] == le_bytes(u@.take(i as int))[k]);
                    assert(u@.take(i as int)[k / 2] == next[k / 2]);
                } else {
                    assert(k / 2 == i);
                }
            }
            assert(r@ =~= le_bytes(next));
        }
        i += 1;
    }
    assert(u@.take(i as int) =~= u@);
    r
}

/// The text that bytes of the registry hold, up to the first zero.
pub fn reg_sz_bytes_to_string(bytes: &[u8]) -> (r: String)
    ensures
        r@ == utf16::decoded(up_to_nul(le_units(bytes@))),
{
    let len: usize = bytes.len();
    let n: usize = len / 2;
    let ghost all = le_units(bytes@);
    let mut u: Vec<u16> = Vec::new();
    let mut i: usize = 0;
    assert(all.skip(0) =~= all);
    assert(u@ + up_to_nul(all) =~= up_to_nul(all));
    while i < n
        invariant_except_break
            u@ + up_to_nul(all.skip(i as int)) == up_to_nul(all),
        invariant
            i <= n,
            len == bytes@.len(),
            n == len / 2,
            all == le_units(bytes@),
        ensures
            u@ == up_to_nul(all),
        decreases n - i,
    {
        let unit: u16 = bytes[2 * i] as u16 + 256 * (bytes[2 * i + 1] as u16);
        let ghost rest = all.skip(i as int);
        assert(unit == all[i as int]);
        assert(rest[0] == unit);
        if unit == 0 {
            assert(u@ + Seq::<u16>::empty() =~= u@);
            break;
        }
        let ghost was = u@;
        u.push(unit);
        proof {
            assert(rest.skip(1) =~= all.skip(i + 1));
            assert(u@ + up_to_nul(all.skip(i + 1)) =~= was + (seq![unit] + up_to_nul(
                all.skip(i + 1),
            )));
        }
        i += 1;
        proof {
            if i == n {
                assert(all.skip(i as int) =~= Seq::<u16>::empty());
                assert(u@ + Seq::<u16>::empty() =~= u@);
            }
        }
    }
    let end: usize = u.len();
    assert(u@.take(end as int) =~= u@);
    utf16::decode(u.as_slice(), end)
}

/// Reading goes on after the key was opened.
pub fn read_opened(code: u32) -> (r: ReadStep)
    ensures
        code == ERROR_SUCCESS ==> r is Next,
        code == ERROR_FILE_NOT_FOUND ==> (r matches ReadStep::Done(c) && c is None),
        code != ERROR_SUCCESS && code != ERROR_FILE_NOT_FOUND ==> (r matches ReadStep::Failed(e)
            && e@ == call_error("RegOpenKeyExW"@, code)),
{
    if code == ERROR_FILE_NOT_FOUND {
        ReadStep::Done(None)
    } else if code != ERROR_SUCCESS {
        ReadStep::Failed(win32_err("RegOpenKeyExW", code))
    } else {
        ReadStep::Next
    }
}

/// Reading goes on after the type and the length of the value were asked for.
pub fn read_sized(code: u32, value_type: u32, len: u32) -> (r: ReadStep)
    ensures
        code == ERROR_FILE_NOT_FOUND ==> (r matches ReadStep::Done(c) && c is None),
        code != ERROR_SUCCESS && code != ERROR_FILE_NOT_FOUND ==> (r matches ReadStep::Failed(e)
            && e@ == call_error("RegQueryValueExW(size)"@, code)),
        code == ERROR_SUCCESS && value_type != REG_SZ ==> (r matches ReadStep::Failed(e) && e@
            == "autostart value has unexpected registry type "@ + num::decimal(value_type as nat)
            + " (expected REG_SZ)"@),
        code == ERROR_SUCCESS && value_type == REG_SZ && len == 0 ==> (r matches ReadStep::Done(c)
            && (c matches Some(t) && t@.len() == 0)),
        code == ERROR_SUCCESS && value_type == REG_SZ && len > 0 ==> r is Next,
{
    if code == ERROR_FILE_NOT_FOUND {
        return ReadStep::Done(None);
    }
    if code != ERROR_SUCCESS {
        return ReadStep::Failed(win32_err("RegQueryValueExW(size)", code));
    }
    if value_type != REG_SZ {
        let mut e: String = "autostart value has unexpected registry type ".to_owned();
        e.push_str(num::decimal_text(value_type as u64).as_str());
        e.push_str(" (expected REG_SZ)");
        return ReadStep::Failed(e);
    }
    if len == 0 {
        ReadStep::Done(Some(String::new()))
    } else {
        ReadStep::Next
    }
}

/// Reading ends when the value was asked for.
pub fn read_command(code: u32, data: &[u8]) -> (r: Result<Option<String>, String>)
    ensures
        code == ERROR_SUCCESS ==> (r matches Ok(c) && (c matches Some(t) && t@ == utf16::decoded(
            up_to_nul(le_units(data@)),
        ))),
        code != ERROR_SUCCESS ==> (r matches Err(e) && e@ == call_error(
            "RegQueryValueExW(data)"@,
            code,
        )),
{
    if code != ERROR_SUCCESS {
        Err(win32_err("RegQueryValueExW(data)", code))
    } else {
        Ok(Some(reg_sz_bytes_to_string(data)))
    }
}

/// Registering goes on where the key was made or opened.
pub fn install_opened(code: u32) -> (r: Result<(), String>)
    ensures
        code == ERROR_SUCCESS ==> r is Ok,
        code != ERROR_SUCCESS ==> (r matches Err(e) && e@ == call_error("RegCreateKeyExW"@, code)),
{
    if code != ERROR_SUCCESS {
        Err(win32_err("RegCreateKeyExW", code))
    } else {
        Ok(())
    }
}

/// Registering ends when the value was written; `previous` is what was registered
/// before.
pub fn install(code: u32, previous: Option<String>) -> (r: Result<InstallOutcome, String>)
    ensures
        code != ERROR_SUCCESS ==> (r matches Err(e) && e@ == call_error("RegSetValueExW"@, code)),
        code == ERROR_SUCCESS && previous is None ==> r matches Ok(InstallOutcome::New),
        code == ERROR_SUCCESS ==> (previous matches Some(p) ==> (r matches Ok(
            InstallOutcome::Replaced(was),
        ) && was@ == p@)),
{
    if code != ERROR_SUCCESS {
        return Err(win32_err("RegSetValueExW", code));
    }
    match previous {
        Some(p) => Ok(InstallOutcome::Replaced(p)),
        None => Ok(InstallOutcome::New),
    }
}

/// Removing begins with a look at what is registered.
pub fn uninstall_found(previous: &Option<String>) -> (r: RemoveStep)
    ensures
        previous is Some ==> r is Next,
        previous is None ==> r matches RemoveStep::Done(UninstallOutcome::NotInstalled),
{
    if previous.is_some() {
        RemoveStep::Next
    } else {
        RemoveStep::Done(UninstallOutcome::NotInstalled)
    }
}

/// Removing goes on after the key was opened.
pub fn uninstall_opened(code: u32) -> (r: RemoveStep)
    ensures
        code == ERROR_SUCCESS ==> r is Next,
        code == ERROR_FILE_NOT_FOUND ==> r matches RemoveStep::Done(UninstallOutcome::NotInstalled),
        code != ERROR_SUCCESS && code != ERROR_FILE_NOT_FOUND ==> (r matches RemoveStep::Failed(e)
            && e@ == call_error("RegOpenKeyExW"@, code)),
{
    if code == ERROR_FILE_NOT_FOUND {
        RemoveStep::Done(UninstallOutcome::NotInstalled)
    } else if code != ERROR_SUCCESS {
        RemoveStep::Failed(win32_err("RegOpenKeyExW", code))
    } else {
        RemoveStep::Next
    }
}

/// Removing ends when the value was deleted; `previous` is what was registered.
pub fn uninstall(code: u32, previous: String) -> (r: Result<UninstallOutcome, String>)
    ensures
        code == ERROR_SUCCESS ==> (r matches Ok(UninstallOutcome::Removed(was)) && was@
            == previous@),
        code == ERROR_FILE_NOT_FOUND ==> r matches Ok(UninstallOutcome::NotInstalled),
        code != ERROR_SUCCESS && code != ERROR_FILE_NOT_FOUND ==> (r matches Err(e) && e@
            == call_error("RegDeleteValueW"@, code)),
{
    if code == ERROR_FILE_NOT_FOUND {
        Ok(UninstallOutcome::NotInstalled)
    } else if code != ERROR_SUCCESS {
        Err(win32_err("RegDeleteValueW", code))
    } else {
        Ok(UninstallOutcome::Removed(previous))
    }
}

} // verus!
