//! The restore map: for each window whose id was replaced by a shared group id,
//! what it was replaced by and what it was before.
//!
//! A replaced id cannot be read off the new one, so it is written down before the
//! window is touched. The file holds a heading and one line for each window: the
//! handle in hexadecimal, the shared id and the original id, with tabs between
//! them. An empty original means that the window had no id of its own.

use std::collections::BTreeMap;
use vstd::prelude::*;

use crate::num;
use crate::text;

verus! {

broadcast use {vstd::std_specs::btree::group_btree_axioms, vstd::laws_cmp::group_laws_cmp};

/// The name of the file.
pub const MAP_FILE_NAME: &'static str = "tbg-restore.tsv";

/// The heading of the file.
pub const MAP_HEADER: &'static str = "# tbg-restore.tsv v1";

/// The name of the data directory.
pub const DATA_DIR_NAME: &'static str = "tbg-lite";

/// Handles with the shared id and the original id of their windows.
pub type Entries = Map<usize, (Seq<char>, Seq<char>)>;

/// The restore map.
pub struct RestoreMap {
    entries: BTreeMap<usize, (String, String)>,
}

/// What was found where the file should be.
pub enum MapFile {
    /// No file.
    Absent,
    /// The text of the file.
    Text(String),
    /// A file that could not be read, and why.
    Unreadable(String),
}

/// What a look at the file shows.
pub enum MapStatus {
    /// There is no file.
    Absent,
    /// The file is in order and holds this many entries.
    Intact {
        /// The number of entries.
        entries: usize,
    },
    /// The file is there and cannot be used, and why.
    Corrupt(String),
}

/// How a map is brought to disk.
pub enum SavePlan {
    /// The map is empty: the file, and what is left of an unfinished write, are
    /// removed.
    RemoveFile,
    /// The file is replaced by this text.
    Write(String),
}

// ---------------------------------------------------------------------------
// Models
// ---------------------------------------------------------------------------

/// The entries with their strings as texts.
pub open spec fn entry_texts(m: Map<usize, (String, String)>) -> Entries {
    m.map_values(|e: (String, String)| (e.0@, e.1@))
}

impl View for RestoreMap {
    type V = Entries;

    closed spec fn view(&self) -> Entries {
        entry_texts(self.entries@)
    }
}

/// The original of a window that carries `current`: there is one where the entry
/// of the window names `current` as its shared id.
pub open spec fn original_of(m: Entries, hwnd: usize, current: Seq<char>) -> Option<Seq<char>> {
    if m.contains_key(hwnd) && m[hwnd].0 == current {
        Some(m[hwnd].1)
    } else {
        None
    }
}

/// Whether keys ascend.
pub open spec fn ascending(ks: Seq<usize>) -> bool {
    forall|i: int, j: int| 0 <= i < j < ks.len() ==> ks[i] < ks[j]
}

/// Whether `ks` are the handles of `m` in ascending order.
pub open spec fn lists_keys(ks: Seq<usize>, m: Entries) -> bool {
    ascending(ks) && ks.to_set() == m.dom()
}

/// The handles of `m` in ascending order.
pub open spec fn keys_of(m: Entries) -> Seq<usize> {
    choose|ks: Seq<usize>| lists_keys(ks, m)
}

/// The line of one entry, without its line feed.
pub open spec fn entry_line(k: usize, e: (Seq<char>, Seq<char>)) -> Seq<char> {
    num::hex(k as nat) + seq!['\t'] + (e.0 + seq!['\t'] + e.1)
}

/// The lines of the entries of `ks`.
pub open spec fn rows(ks: Seq<usize>, m: Entries) -> Seq<char>
    decreases ks.len(),
{
    if ks.len() == 0 {
        Seq::empty()
    } else {
        entry_line(ks[0], m[ks[0]]) + seq!['\n'] + rows(ks.skip(1), m)
    }
}

/// The text of the file: the heading, and the entries by ascending handles.
pub open spec fn serialized(m: Entries) -> Seq<char> {
    MAP_HEADER@ + seq!['\n'] + rows(keys_of(m), m)
}

/// The three fields of a line: what stands before the first tab, between the
/// first two, and behind the second.
pub open spec fn three_fields(line: Seq<char>) -> Option<(Seq<char>, Seq<char>, Seq<char>)> {
    let i = text::first_index(line, '\t');
    let rest = line.skip(i + 1);
    let j = text::first_index(rest, '\t');
    if i < line.len() && j < rest.len() {
        Some((line.take(i), rest.take(j), rest.skip(j + 1)))
    } else {
        None
    }
}

/// The handle that a field denotes: a hexadecimal number, with any number of
/// prefixes `0x` before it.
pub open spec fn key_of(field: Seq<char>) -> Option<nat> {
    num::unsigned(text::strip_repeated(field, "0x"@), 16, usize::MAX as nat)
}

/// What is said of a line without three fields.
pub open spec fn fields_error(number: nat, line: Seq<char>) -> Seq<char> {
    "restore map corrupt at line "@ + num::decimal(number) + " (expected 3 TSV fields): '"@ + line
        + "'"@
}

/// What is said of a line whose first field is no handle.
pub open spec fn handle_error(number: nat, field: Seq<char>) -> Seq<char> {
    "restore map corrupt at line "@ + num::decimal(number) + " (bad HWND '"@ + field + "')"@
}

/// The entries of lines, added to `acc`; `number` counts the lines before them.
/// Empty lines and lines that start with `#` hold no entry, and a later entry of
/// a window replaces an earlier one. The first line that is wrong is the error.
pub open spec fn parsed_lines(ls: Seq<Seq<char>>, number: nat, acc: Entries) -> Result<
    Entries,
    Seq<char>,
>
    decreases ls.len(),
{
    if ls.len() == 0 {
        Ok(acc)
    } else {
        let line = ls[0];
        if line.len() == 0 || line[0] == '#' {
            parsed_lines(ls.skip(1), number + 1, acc)
        } else {
            match three_fields(line) {
                None => Err(fields_error(number + 1, line)),
                Some((h, g, o)) => match key_of(h) {
                    None => Err(handle_error(number + 1, h)),
                    Some(k) => parsed_lines(
                        ls.skip(1),
                        number + 1,
                        acc.insert(k as usize, (g, o)),
                    ),
                },
            }
        }
    }
}

/// The entries that a text holds.
pub open spec fn parsed(s: Seq<char>) -> Result<Entries, Seq<char>> {
    parsed_lines(text::lines(s), 0, Map::empty())
}

/// Whether the file can hold an entry: no tab in the shared id, no line feed in
/// either id, and no carriage return at the end of the original.
pub open spec fn storable(e: (Seq<char>, Seq<char>)) -> bool {
    &&& !e.0.contains('\t')
    &&& !e.0.contains('\n')
    &&& !e.1.contains('\n')
    &&& (e.1.len() > 0 ==> e.1.last() != '\r')
}

/// What loading the file gives.
pub open spec fn loaded(file: MapFile) -> Result<Entries, Seq<char>> {
    match file {
        MapFile::Absent => Ok(Map::empty()),
        MapFile::Text(t) => parsed(t@),
        MapFile::Unreadable(e) => Err("restore map read failed: "@ + e@),
    }
}

// ---------------------------------------------------------------------------
// Laws
// ---------------------------------------------------------------------------

/// There is one ascending sequence of the members of a set only.
proof fn lemma_ascending_unique(a: Seq<usize>, b: Seq<usize>)
    requires
        ascending(a),
        ascending(b),
        a.to_set() == b.to_set(),
    ensures
        a == b,
    decreases a.len(),
{
    if a.len() == 0 {
        if b.len() > 0 {
            assert(b.to_set().contains(b[0]));
            assert(a.to_set().contains(b[0]));
        }
        assert(a =~= b);
    } else {
        assert(a.to_set().contains(a[0]));
        assert(b.contains(a[0]));
        assert(b.to_set().contains(b[0]));
        assert(a.contains(b[0]));
        let i = choose|i: int| 0 <= i < b.len() && b[i] == a[0];
        let j = choose|j: int| 0 <= j < a.len() && a[j] == b[0];
        assert(a[0] == b[0]);
        let x = a.skip(1);
        let y = b.skip(1);
        assert forall|k: usize| x.to_set().contains(k) <==> y.to_set().contains(k) by {
            if x.contains(k) {
                let n = choose|n: int| 0 <= n < x.len() && x[n] == k;
                assert(a[n + 1] == k && a[0] < a[n + 1]);
                assert(a.to_set().contains(k));
                assert(b.contains(k));
                let p = choose|p: int| 0 <= p < b.len() && b[p] == k;
                assert(y[p - 1] == k);
            }
            if y.contains(k) {
                let n = choose|n: int| 0 <= n < y.len() && y[n] == k;
                assert(b[n + 1] == k && b[0] < b[n + 1]);
                assert(b.to_set().contains(k));
                assert(a.contains(k));
                let p = choose|p: int| 0 <= p < a.len() && a[p] == k;
                assert(x[p - 1] == k);
            }
        }
        assert(x.to_set() =~= y.to_set());
        lemma_ascending_unique(x, y);
        assert(a =~= seq![a[0]] + x);
        assert(b =~= seq![b[0]] + y);
    }
}

/// A sequence that lists the handles is the one that `keys_of` gives.
pub proof fn lemma_keys_of(ks: Seq<usize>, m: Entries)
    requires
        lists_keys(ks, m),
    ensures
        keys_of(m) == ks,
{
    assert(lists_keys(keys_of(m), m));
    lemma_ascending_unique(keys_of(m), ks);
}

/// There are finitely many handles below a bound.
proof fn lemma_below_is_finite(n: nat)
    ensures
        Set::new(|k: usize| k < n).finite(),
    decreases n,
{
    let below = Set::new(|k: usize| k < n);
    if n == 0 {
        assert(below =~= Set::<usize>::empty());
    } else {
        let fewer = Set::new(|k: usize| k < (n - 1) as nat);
        lemma_below_is_finite((n - 1) as nat);
        if n - 1 <= usize::MAX {
            assert(below =~= fewer.insert((n - 1) as usize));
        } else {
            assert(below =~= fewer);
        }
    }
}

/// A set of handles is finite.
pub proof fn lemma_handles_are_finite(s: Set<usize>)
    ensures
        s.finite(),
{
    let n = (usize::MAX + 1) as nat;
    lemma_below_is_finite(n);
    assert(s.subset_of(Set::new(|k: usize| k < n)));
    vstd::set_lib::lemma_set_subset_finite(Set::new(|k: usize| k < n), s);
}

/// The handles of a map can be listed.
pub proof fn lemma_keys_exist(m: Entries)
    ensures
        lists_keys(keys_of(m), m),
    decreases m.dom().len(),
{
    lemma_handles_are_finite(m.dom());
    if m.dom().len() == 0 {
        let ks = Seq::<usize>::empty();
        assert(ks.to_set() =~= m.dom());
        assert(lists_keys(ks, m));
    } else {
        let x = lemma_greatest(m.dom());
        let n = m.remove(x);
        lemma_keys_exist(n);
        let was = keys_of(n);
        let ks = was.push(x);
        assert forall|i: int, j: int| 0 <= i < j < ks.len() implies ks[i] < ks[j] by {
            if j == was.len() {
                assert(was.to_set().contains(was[i]));
                assert(n.dom().contains(was[i]));
            }
        }
        assert forall|k: usize| ks.to_set().contains(k) <==> m.dom().contains(k) by {
            if ks.to_set().contains(k) {
                let i = choose|i: int| 0 <= i < ks.len() && ks[i] == k;
                if i < was.len() {
                    assert(was.to_set().contains(was[i]));
                }
            }
            if m.dom().contains(k) {
                if k == x {
                    assert(ks[was.len() as int] == k);
                } else {
                    assert(was.to_set().contains(k));
                    let i = choose|i: int| 0 <= i < was.len() && was[i] == k;
                    assert(ks[i] == k);
                }
            }
        }
        assert(ks.to_set() =~= m.dom());
        assert(lists_keys(ks, m));
    }
}

/// A set of handles that is not empty has a greatest member.
proof fn lemma_greatest(s: Set<usize>) -> (x: usize)
    requires
        s.len() > 0,
    ensures
        s.contains(x),
        forall|y: usize| s.contains(y) ==> y <= x,
    decreases s.len(),
{
    lemma_handles_are_finite(s);
    let a = s.choose();
    let t = s.remove(a);
    if t.len() == 0 {
        assert forall|y: usize| s.contains(y) implies y <= a by {
            if y != a {
                assert(t.contains(y));
                assert(t =~= Set::<usize>::empty());
            }
        }
        a
    } else {
        let b = lemma_greatest(t);
        if a > b {
            assert forall|y: usize| s.contains(y) implies y <= a by {
                if y != a {
                    assert(t.contains(y));
                }
            }
            a
        } else {
            assert forall|y: usize| s.contains(y) implies y <= b by {
                if y != a {
                    assert(t.contains(y));
                }
            }
            b
        }
    }
}

/// The line of a storable entry is read as that entry.
proof fn lemma_entry_line(k: usize, e: (Seq<char>, Seq<char>))
    requires
        storable(e),
    ensures
        entry_line(k, e).len() > 0,
        entry_line(k, e)[0] != '#',
        three_fields(entry_line(k, e)) == Some((num::hex(k as nat), e.0, e.1)),
        key_of(num::hex(k as nat)) == Some(k as nat),
        !entry_line(k, e).contains('\n'),
        text::strip_cr(entry_line(k, e)) == entry_line(k, e),
{
    let h = num::hex(k as nat);
    let rest = e.0 + seq!['\t'] + e.1;
    let line = entry_line(k, e);
    num::lemma_numeral(k as nat, 16);
    num::lemma_numeral_round_trip(k as nat, 16, usize::MAX as nat);
    assert(num::upper_hex_digit(h[0]));
    assert(line[0] == h[0]);
    assert forall|i: int| 0 <= i < h.len() implies h[i] != '\t' && h[i] != '\n' && h[i] != 'x' by {
        assert(num::upper_hex_digit(h[i]));
    }
    text::lemma_first_index_concat(h, '\t', rest);
    text::lemma_first_index_concat(e.0, '\t', e.1);
    reveal_strlit("0x");
    if text::starts_with(h, "0x"@) {
        assert(h.subrange(0, 2)[1] == h[1]);
    }
    if line.contains('\n') {
        let i = choose|i: int| 0 <= i < line.len() && line[i] == '\n';
        if i < h.len() {
            assert(line[i] == h[i]);
        } else if i > h.len() {
            let j = i - h.len() - 1;
            assert(line[i] == rest[j]);
            if j < e.0.len() {
                assert(rest[j] == e.0[j]);
            } else if j > e.0.len() {
                assert(rest[j] == e.1[j - e.0.len() - 1]);
            }
        }
    }
    assert(line.last() == rest.last());
    if e.1.len() > 0 {
        assert(rest.last() == e.1.last());
    } else {
        assert(rest.last() == '\t');
    }
}

/// Reading the lines of entries adds those entries.
proof fn lemma_rows_parse(ks: Seq<usize>, m: Entries, number: nat, acc: Entries)
    requires
        forall|i: int| 0 <= i < ks.len() ==> storable(m[#[trigger] ks[i]]),
    ensures
        parsed_lines(text::lines(rows(ks, m)), number, acc) matches Ok(r) && {
            &&& forall|k: usize| #[trigger]
                r.contains_key(k) <==> acc.contains_key(k) || ks.contains(k)
            &&& forall|k: usize| #[trigger]
                r.contains_key(k) ==> r[k] == (if ks.contains(k) {
                    m[k]
                } else {
                    acc[k]
                })
        },
    decreases ks.len(),
{
    if ks.len() == 0 {
        assert(text::lines(rows(ks, m)) =~= Seq::<Seq<char>>::empty());
    } else {
        let k0 = ks[0];
        let rest = ks.skip(1);
        let line = entry_line(k0, m[k0]);
        assert(storable(m[ks[0]]));
        lemma_entry_line(k0, m[k0]);
        text::lemma_lines_front(line, rows(rest, m));
        let ls = text::lines(rows(ks, m));
        assert(ls[0] == line);
        assert(ls.skip(1) =~= text::lines(rows(rest, m)));
        assert forall|i: int| 0 <= i < rest.len() implies storable(m[#[trigger] rest[i]]) by {
            assert(rest[i] == ks[i + 1]);
        }
        let next = acc.insert(k0, m[k0]);
        lemma_rows_parse(rest, m, number + 1, next);
        let r = parsed_lines(text::lines(rows(rest, m)), number + 1, next)->Ok_0;
        assert forall|k: usize| ks.contains(k) <==> k == k0 || rest.contains(k) by {
            if ks.contains(k) && k != k0 {
                let i = choose|i: int| 0 <= i < ks.len() && ks[i] == k;
                assert(rest[i - 1] == k);
            }
            if rest.contains(k) {
                let i = choose|i: int| 0 <= i < rest.len() && rest[i] == k;
                assert(ks[i + 1] == k);
            }
            assert(ks[0] == k0);
        }
    }
}

/// Reading what was written gives the map back, for a map whose entries the file
/// can hold.
pub proof fn law_write_read(m: Entries)
    requires
        forall|k: usize| #[trigger] m.contains_key(k) ==> storable(m[k]),
    ensures
        parsed(serialized(m)) == Ok::<Entries, Seq<char>>(m),
{
    reveal_strlit("# tbg-restore.tsv v1");
    lemma_keys_exist(m);
    let ks = keys_of(m);
    assert forall|i: int| 0 <= i < ks.len() implies storable(m[#[trigger] ks[i]]) by {
        assert(ks.to_set().contains(ks[i]));
        assert(m.contains_key(ks[i]));
    }
    let body = rows(ks, m);
    assert(!MAP_HEADER@.contains('\n'));
    text::lemma_lines_front(MAP_HEADER@, body);
    let ls = text::lines(serialized(m));
    assert(text::strip_cr(MAP_HEADER@) == MAP_HEADER@);
    assert(ls[0] == MAP_HEADER@);
    assert(ls.skip(1) =~= text::lines(body));
    lemma_rows_parse(ks, m, 1, Map::empty());
    let r = parsed_lines(text::lines(body), 1, Map::empty())->Ok_0;
    assert forall|k: usize| r.contains_key(k) <==> m.contains_key(k) by {
        assert(ks.contains(k) <==> ks.to_set().contains(k));
    }
    assert(r =~= m);
}

/// What is recorded of a window is what a later look finds, for the shared id that
/// it was recorded with and no other.
pub proof fn law_record_then_look(m: Entries, hwnd: usize, group: Seq<char>, original: Seq<char>)
    ensures
        original_of(m.insert(hwnd, (group, original)), hwnd, group) == Some(original),
        forall|other: Seq<char>|
            other != group ==> #[trigger] original_of(
                m.insert(hwnd, (group, original)),
                hwnd,
                other,
            ) is None,
{
}

/// The original of a window is the one in its entry, where the entry names the shared id
/// that the window carries; there is none else.
pub proof fn law_originals(m: Entries, hwnd: usize, current: Seq<char>, original: Seq<char>)
    ensures
        original_of(m, hwnd, current) == Some(original) <==> m.contains_key(hwnd) && m[hwnd] == (
            current,
            original,
        ),
{
}

/// The map without entries is the heading, and an entry with a greater handle than all
/// others is a line behind them: the handle in hexadecimal, the shared id and the original,
/// with tabs between them.
pub proof fn law_serialized(m: Entries, k: usize, group: Seq<char>, original: Seq<char>)
    requires
        forall|j: usize| #[trigger] m.contains_key(j) ==> j < k,
    ensures
        serialized(Map::empty()) == "# tbg-restore.tsv v1"@ + seq!['\n'],
        serialized(m.insert(k, (group, original))) == serialized(m) + num::hex(k as nat)
            + seq!['\t'] + group + seq!['\t'] + original + seq!['\n'],
{
    let none = Map::<usize, (Seq<char>, Seq<char>)>::empty();
    let nothing = Seq::<usize>::empty();
    assert(nothing.to_set() =~= none.dom());
    lemma_keys_of(nothing, none);
    assert(serialized(none) =~= MAP_HEADER@ + seq!['\n']);
    let n = m.insert(k, (group, original));
    lemma_keys_exist(m);
    let ks = keys_of(m);
    let more = ks.push(k);
    assert forall|i: int| 0 <= i < ks.len() implies m.contains_key(#[trigger] ks[i]) by {
        assert(ks.to_set().contains(ks[i]));
    }
    assert forall|x: usize| more.to_set().contains(x) <==> n.dom().contains(x) by {
        if more.to_set().contains(x) {
            let i = choose|i: int| 0 <= i < more.len() && more[i] == x;
            if i < ks.len() {
                assert(m.contains_key(ks[i]));
            }
        }
        if n.dom().contains(x) {
            if x == k {
                assert(more[ks.len() as int] == x);
            } else {
                assert(ks.to_set().contains(x));
                let i = choose|i: int| 0 <= i < ks.len() && ks[i] == x;
                assert(more[i] == x);
            }
        }
    }
    assert(more.to_set() =~= n.dom());
    lemma_keys_of(more, n);
    lemma_rows_push(ks, m, n, k);
    let line = entry_line(k, (group, original)) + seq!['\n'];
    assert(serialized(n) =~= serialized(m) + line);
    assert(serialized(m) + line =~= serialized(m) + num::hex(k as nat) + seq!['\t'] + group
        + seq!['\t'] + original + seq!['\n']);
}

/// The line of one more handle comes behind the others.
proof fn lemma_rows_push(ks: Seq<usize>, m: Entries, n: Entries, k: usize)
    requires
        forall|i: int| 0 <= i < ks.len() ==> n[#[trigger] ks[i]] == m[ks[i]],
    ensures
        rows(ks.push(k), n) == rows(ks, m) + (entry_line(k, n[k]) + seq!['\n']),
    decreases ks.len(),
{
    let all = ks.push(k);
    if ks.len() == 0 {
        assert(all.skip(1) =~= Seq::<usize>::empty());
        assert(rows(all.skip(1), n) =~= Seq::<char>::empty());
        assert(rows(all, n) =~= entry_line(k, n[k]) + seq!['\n']);
        assert(rows(ks, m) =~= Seq::<char>::empty());
    } else {
        let r = ks.skip(1);
        assert forall|i: int| 0 <= i < r.len() implies n[#[trigger] r[i]] == m[r[i]] by {
            assert(r[i] == ks[i + 1]);
        }
        lemma_rows_push(r, m, n, k);
        assert(all.skip(1) =~= r.push(k));
        assert(all[0] == ks[0]);
        assert(n[ks[0]] == m[ks[0]]);
        let x = entry_line(ks[0], m[ks[0]]) + seq!['\n'];
        assert(x + (rows(r, m) + (entry_line(k, n[k]) + seq!['\n'])) =~= x + rows(r, m) + (
        entry_line(k, n[k]) + seq!['\n']));
    }
}

/// Reading one more line: what was wrong before stays wrong, and else the line is read.
proof fn lemma_parsed_push(ls: Seq<Seq<char>>, x: Seq<char>, number: nat, acc: Entries)
    ensures
        parsed_lines(ls.push(x), number, acc) == (match parsed_lines(ls, number, acc) {
            Err(e) => Err(e),
            Ok(m) => parsed_lines(seq![x], number + ls.len(), m),
        }),
    decreases ls.len(),
{
    let all = ls.push(x);
    if ls.len() == 0 {
        assert(all =~= seq![x]);
    } else {
        assert(all.skip(1) =~= ls.skip(1).push(x));
        assert(all[0] == ls[0]);
        let line = ls[0];
        if line.len() == 0 || line[0] == '#' {
            lemma_parsed_push(ls.skip(1), x, number + 1, acc);
        } else if three_fields(line) is Some {
            let (h, g, o) = three_fields(line)->0;
            if key_of(h) is Some {
                lemma_parsed_push(
                    ls.skip(1),
                    x,
                    number + 1,
                    acc.insert(key_of(h)->0 as usize, (g, o)),
                );
            }
        }
    }
}

/// The file is read line by line. An empty line and one that begins with a hash say
/// nothing; a handle, a shared id and an original, with tabs between them, are an entry
/// that takes the place of an earlier one of the same window; what is not that is wrong, and
/// is told with the number of the line. A carriage return at the end of a line is no part of
/// it, and what is wrong stays so whatever follows.
pub proof fn law_file_is_read_line_by_line(t: Seq<char>, line: Seq<char>, h: Seq<char>, g: Seq<char>, o: Seq<char>)
    requires
        t.len() > 0 ==> t.last() == '\n',
        !line.contains('\n'),
    ensures
        parsed(Seq::empty()) == Ok::<Entries, Seq<char>>(Map::empty()),
        parsed(t) matches Err(e) ==> parsed(t + line + seq!['\n']) == Err::<Entries, Seq<char>>(e),
        parsed(t) matches Ok(m) ==> {
            let x = if line.len() > 0 && line.last() == '\r' {
                line.drop_last()
            } else {
                line
            };
            let all = parsed(t + line + seq!['\n']);
            let number = num::decimal(text::lines(t).len() + 1);
            &&& x.len() == 0 || x[0] == '#' ==> all == Ok::<Entries, Seq<char>>(m)
            &&& x.len() > 0 && x[0] != '#' && x == h + seq!['\t'] + g + seq!['\t'] + o
                && !h.contains('\t') && !g.contains('\t') ==> (match key_of(h) {
                Some(k) => all == Ok::<Entries, Seq<char>>(m.insert(k as usize, (g, o))),
                None => all == Err::<Entries, Seq<char>>(
                    "restore map corrupt at line "@ + number + " (bad HWND '"@ + h + "')"@,
                ),
            })
            &&& x.len() > 0 && x[0] != '#' && (!x.contains('\t') || (x == h + seq!['\t'] + g
                && !h.contains('\t') && !g.contains('\t'))) ==> all == Err::<Entries, Seq<char>>(
                "restore map corrupt at line "@ + number + " (expected 3 TSV fields): '"@ + x
                    + "'"@,
            )
        },
{
    let none = Seq::<char>::empty();
    assert(text::lines(none) =~= Seq::<Seq<char>>::empty());
    let x = text::strip_cr(line);
    text::lemma_lines_push(t, line);
    lemma_parsed_push(text::lines(t), x, 0, Map::empty());
    if parsed(t) is Ok {
        let m = parsed(t)->Ok_0;
        let one = seq![x];
        assert(one[0] == x);
        assert(one.skip(1) =~= Seq::<Seq<char>>::empty());
        assert forall|n: nat, acc: Entries| #[trigger] parsed_lines(one.skip(1), n, acc) == Ok::<
            Entries,
            Seq<char>,
        >(acc) by {}
        if x == h + seq!['\t'] + g + seq!['\t'] + o && !h.contains('\t') && !g.contains('\t') {
            lemma_three_fields(h, g, o);
            assert(x =~= h + seq!['\t'] + (g + seq!['\t'] + o));
        }
        if !x.contains('\t') {
            text::lemma_first_index_is(x, '\t', x.len() as int);
        }
        if x == h + seq!['\t'] + g && !h.contains('\t') && !g.contains('\t') {
            text::lemma_first_index_concat(h, '\t', g);
            text::lemma_first_index_is(g, '\t', g.len() as int);
            assert(x.skip(text::first_index(x, '\t') + 1) == g);
            assert(three_fields(x) is None);
        }
        let n = text::lines(t).len();
        assert(parsed(t + line + seq!['\n']) == parsed_lines(one, n, m));
        if x.len() > 0 && x[0] != '#' {
            if three_fields(x) is Some {
                let (a, b, c) = three_fields(x)->0;
                if key_of(a) is Some {
                    assert(parsed_lines(one, n, m) == parsed_lines(
                        one.skip(1),
                        n + 1,
                        m.insert(key_of(a)->0 as usize, (b, c)),
                    ));
                } else {
                    assert(parsed_lines(one, n, m) == Err::<Entries, Seq<char>>(
                        handle_error(n + 1, a),
                    ));
                }
            } else {
                assert(parsed_lines(one, n, m) == Err::<Entries, Seq<char>>(
                    fields_error(n + 1, x),
                ));
            }
        } else {
            assert(parsed_lines(one, n, m) == parsed_lines(one.skip(1), n + 1, m));
        }
    }
}

/// Three fields are told apart by the first two tabs.
proof fn lemma_three_fields(h: Seq<char>, g: Seq<char>, o: Seq<char>)
    requires
        !h.contains('\t'),
        !g.contains('\t'),
    ensures
        three_fields(h + seq!['\t'] + (g + seq!['\t'] + o)) == Some((h, g, o)),
{
    text::lemma_first_index_concat(h, '\t', g + seq!['\t'] + o);
    text::lemma_first_index_concat(g, '\t', o);
}

/// The handle of an entry is a hexadecimal number, and prefixes before it say nothing.
pub proof fn law_entry_handles(k: usize, s: Seq<char>)
    ensures
        key_of(num::hex(k as nat)) == Some(k as nat),
        key_of("0x"@ + s) == key_of(s),
        !text::starts_with(s, "0x"@) ==> key_of(s) == num::unsigned(s, 16, usize::MAX as nat),
{
    reveal_strlit("0x");
    text::law_strip_repeated(s, "0x"@);
    let d = num::hex(k as nat);
    num::lemma_numeral(k as nat, 16);
    num::lemma_numeral_round_trip(k as nat, 16, usize::MAX as nat);
    assert(!text::starts_with(d, "0x"@)) by {
        if text::starts_with(d, "0x"@) {
            assert(d.subrange(0, 2)[1] == d[1]);
            assert(num::upper_hex_digit(d[1]));
        }
    }
    text::law_strip_repeated(d, "0x"@);
}

/// No file is a map without entries, a text is read, and a file that cannot be read is an
/// error.
pub proof fn law_loaded(t: String, e: String)
    ensures
        loaded(MapFile::Absent) == Ok::<Entries, Seq<char>>(Map::empty()),
        loaded(MapFile::Text(t)) == parsed(t@),
        loaded(MapFile::Unreadable(e)) == Err::<Entries, Seq<char>>(
            "restore map read failed: "@ + e@,
        ),
{
}

/// The file and the data directory have their names.
pub proof fn law_map_file()
    ensures
        MAP_FILE_NAME@ == "tbg-restore.tsv"@,
        DATA_DIR_NAME@ == "tbg-lite"@,
{
}

// ---------------------------------------------------------------------------
// Functions
// ---------------------------------------------------------------------------

/// The handles in ascending order.
fn ascending_keys(m: &BTreeMap<usize, (String, String)>) -> (r: Vec<usize>)
    ensures
        ascending(r@),
        r@.to_set() == m@.dom(),
{
    let mut r: Vec<usize> = Vec::new();
    let iter = m.iter();
    let ghost all = vstd::std_specs::iter::IteratorSpec::remaining(&iter);
    let ghost ks = all.map_values(|kv: (&usize, &(String, String))| *kv.0);
    for kv in it: iter
        invariant
            it.seq() == all,
            ks == all.map_values(|kv: (&usize, &(String, String))| *kv.0),
            r@ == ks.take(it.index()),
    {
        r.push(*kv.0);
        assert(ks.take(it.index() + 1) =~= ks.take(it.index()).push(*kv.0));
    }
    proof {
        assert(r@ =~= ks);
        assert(vstd::std_specs::btree::increasing_seq(ks));
        assert forall|i: int, j: int| 0 <= i < j < ks.len() implies ks[i] < ks[j] by {
            assert(vstd::std_specs::cmp::OrdSpec::cmp_spec(&ks[i], &ks[j]) is Less);
        }
        assert forall|k: usize| r@.to_set().contains(k) <==> m@.dom().contains(k) by {
            if r@.to_set().contains(k) {
                let i = choose|i: int| 0 <= i < r@.len() && r@[i] == k;
                assert(m@.contains_key(*all[i].0));
            }
            if m@.dom().contains(k) {
                assert(m@.contains_key(k));
                assert(all.contains((&k, &m@[k])));
                let i = choose|i: int| 0 <= i < all.len() && all[i] == (&k, &m@[k]);
                assert(ks[i] == k);
            }
        }
        assert(r@.to_set() =~= m@.dom());
    }
    r
}

/// The text of the file for a map.
pub fn serialize(map: &RestoreMap) -> (r: String)
    ensures
        r@ == serialized(map@),
{
    let ks: Vec<usize> = ascending_keys(&map.entries);
    proof {
        assert(map@.dom() =~= map.entries@.dom());
        lemma_keys_of(ks@, map@);
    }
    let mut out: String = MAP_HEADER.to_owned();
    out.push('\n');
    let mut i: usize = 0;
    proof {
        assert(ks@.skip(0) =~= ks@);
        assert(out@ =~= MAP_HEADER@ + seq!['\n']);
    }
    while i < ks.len()
        invariant
            i <= ks@.len(),
            lists_keys(ks@, map@),
            map@.dom() == map.entries@.dom(),
            out@ + rows(ks@.skip(i as int), map@) == MAP_HEADER@ + seq!['\n'] + rows(ks@, map@),
        decreases ks@.len() - i,
    {
        let k: usize = ks[i];
        let ghost was = out@;
        let ghost rest = ks@.skip(i as int);
        proof {
            assert(ks@.to_set().contains(ks@[i as int]));
            assert(map.entries@.contains_key(k));
            assert(rest.skip(1) =~= ks@.skip(i + 1));
            assert(rest[0] == k);
        }
        if let Some(e) = map.entries.get(&k) {
            out.push_str(num::hex_text(k).as_str());
            out.push('\t');
            out.push_str(e.0.as_str());
            out.push('\t');
            out.push_str(e.1.as_str());
            out.push('\n');
            proof {
                assert(map@[k] == (e.0@, e.1@));
                assert(out@ =~= was + (entry_line(k, map@[k]) + seq!['\n']));
                assert(out@ + rows(ks@.skip(i + 1), map@) =~= was + (entry_line(k, map@[k])
                    + seq!['\n'] + rows(ks@.skip(i + 1), map@)));
            }
        }
        i += 1;
    }
    proof {
        assert(ks@.skip(i as int) =~= Seq::<usize>::empty());
        assert(out@ + Seq::<char>::empty() =~= out@);
    }
    out
}

/// The three fields of a line.
fn fields_of(line: &[char]) -> (r: Option<(Vec<char>, Vec<char>, Vec<char>)>)
    ensures
        match r {
            Some((h, g, o)) => three_fields(line@) == Some((h@, g@, o@)),
            None => three_fields(line@) is None,
        },
{
    let n: usize = line.len();
    assert(line@.skip(0) =~= line@);
    let i: usize = text::index_from(line, '\t', 0);
    if i == n {
        return None;
    }
    let j: usize = text::index_from(line, '\t', i + 1);
    if j == n {
        return None;
    }
    let h: Vec<char> = text::copy_range(line, 0, i);
    let g: Vec<char> = text::copy_range(line, i + 1, j);
    let o: Vec<char> = text::copy_range(line, j + 1, n);
    proof {
        let rest = line@.skip(i + 1);
        assert(h@ =~= line@.take(i as int));
        assert(g@ =~= rest.take(j - i - 1));
        assert(o@ =~= rest.skip(j - i));
    }
    Some((h, g, o))
}

/// The handle that a field denotes.
fn key_from(field: &[char]) -> (r: Option<usize>)
    ensures
        match r {
            Some(k) => key_of(field@) == Some(k as nat),
            None => key_of(field@) is None,
        },
{
    proof {
        reveal_strlit("0x");
    }
    let t: Vec<char> = text::without_repeated(field, text::chars_of("0x").as_slice());
    num::read_hex_usize(t.as_slice())
}

/// Reads the text of the file.
pub fn parse(s: &str) -> (r: Result<RestoreMap, String>)
    ensures
        match r {
            Ok(m) => parsed(s@) == Ok::<Entries, Seq<char>>(m@),
            Err(e) => parsed(s@) == Err::<Entries, Seq<char>>(e@),
        },
{
    let ls: Vec<Vec<char>> = text::line_list(text::chars_of(s).as_slice());
    let ghost all = text::pieces(ls@);
    let mut m: RestoreMap = RestoreMap::new();
    let mut i: usize = 0;
    assert(all.skip(0) =~= all);
    while i < ls.len()
        invariant
            all == text::pieces(ls@),
            all == text::lines(s@),
            i <= ls@.len(),
            parsed_lines(all.skip(i as int), i as nat, m@) == parsed(s@),
        decreases ls@.len() - i,
    {
        let line: &Vec<char> = &ls[i];
        proof {
            assert(all.skip(i as int)[0] == line@);
            assert(all.skip(i as int).skip(1) =~= all.skip(i + 1));
        }
        if line.len() > 0 && line[0] != '#' {
            match fields_of(line.as_slice()) {
                None => {
                    let mut e: String = "restore map corrupt at line ".to_owned();
                    e.push_str(num::decimal_text(i as u64 + 1).as_str());
                    e.push_str(" (expected 3 TSV fields): '");
                    e.push_str(text::text_of(line.as_slice()).as_str());
                    e.push_str("'");
                    return Err(e);
                },
                Some((h, g, o)) => match key_from(h.as_slice()) {
                    None => {
                        let mut e: String = "restore map corrupt at line ".to_owned();
                        e.push_str(num::decimal_text(i as u64 + 1).as_str());
                        e.push_str(" (bad HWND '");
                        e.push_str(text::text_of(h.as_slice()).as_str());
                        e.push_str("')");
                        return Err(e);
                    },
                    Some(k) => {
                        m.record(
                            k,
                            text::text_of(g.as_slice()).as_str(),
                            text::text_of(o.as_slice()).as_str(),
                        );
                    },
                },
            }
        }
        i += 1;
    }
    assert(all.skip(i as int) =~= Seq::<Seq<char>>::empty());
    Ok(m)
}

impl RestoreMap {
    /// A map without entries.
    pub fn new() -> (m: RestoreMap)
        ensures
            m@ == Map::<usize, (Seq<char>, Seq<char>)>::empty(),
    {
        let m: RestoreMap = RestoreMap { entries: BTreeMap::new() };
        assert(m@ =~= Map::<usize, (Seq<char>, Seq<char>)>::empty());
        m
    }

    /// The map that a file holds: none is an empty map. A file that cannot be used
    /// is an error, so that no entry is lost in silence.
    pub fn load(file: &MapFile) -> (r: Result<RestoreMap, String>)
        ensures
            match r {
                Ok(m) => loaded(*file) == Ok::<Entries, Seq<char>>(m@),
                Err(e) => loaded(*file) == Err::<Entries, Seq<char>>(e@),
            },
    {
        match file {
            MapFile::Absent => Ok(RestoreMap::new()),
            MapFile::Text(t) => parse(t.as_str()),
            MapFile::Unreadable(e) => {
                let mut m: String = "restore map read failed: ".to_owned();
                m.push_str(e.as_str());
                Err(m)
            },
        }
    }

    /// Records what the id of a window is replaced by and what it was.
    pub fn record(&mut self, hwnd: usize, group_value: &str, original: &str)
        ensures
            final(self)@ == old(self)@.insert(hwnd, (group_value@, original@)),
    {
        self.entries.insert(hwnd, (group_value.to_owned(), original.to_owned()));
        assert(self@ =~= old(self)@.insert(hwnd, (group_value@, original@)));
    }

    /// Drops the entry of a window; says whether there was one.
    pub fn remove(&mut self, hwnd: usize) -> (r: bool)
        ensures
            r == old(self)@.contains_key(hwnd),
            final(self)@ == old(self)@.remove(hwnd),
    {
        let r: bool = self.entries.remove(&hwnd).is_some();
        assert(self@ =~= old(self)@.remove(hwnd));
        r
    }

    /// Takes the original of a window out of the map. The entry stays, and nothing
    /// is given, where it names another shared id than the window carries: the
    /// handle then belongs to another window.
    pub fn take(&mut self, hwnd: usize, current_group_value: &str) -> (r: Option<String>)
        ensures
            text::opt_text(r) == original_of(old(self)@, hwnd, current_group_value@),
            r is Some ==> final(self)@ == old(self)@.remove(hwnd),
            r is None ==> final(self)@ == old(self)@,
    {
        match self.peek(hwnd, current_group_value) {
            Some(original) => {
                self.remove(hwnd);
                Some(original)
            },
            None => None,
        }
    }

    /// The original of a window, as `take` gives it; the map stays as it is.
    pub fn peek(&self, hwnd: usize, current_group_value: &str) -> (r: Option<String>)
        ensures
            text::opt_text(r) == original_of(self@, hwnd, current_group_value@),
    {
        match self.entries.get(&hwnd) {
            Some(e) => {
                assert(self@.contains_key(hwnd) && self@[hwnd] == (e.0@, e.1@));
                if text::same_text(e.0.as_str(), current_group_value) {
                    Some(e.1.clone())
                } else {
                    None
                }
            },
            None => {
                assert(!self@.contains_key(hwnd));
                None
            },
        }
    }

    /// The number of entries.
    pub fn len(&self) -> (r: usize)
        ensures
            r == self@.len(),
    {
        assert(self@.dom() =~= self.entries@.dom());
        self.entries.len()
    }

    /// Whether there are no entries.
    pub fn is_empty(&self) -> (r: bool)
        ensures
            r == (self@.len() == 0),
    {
        self.len() == 0
    }

    /// How the map is brought to disk.
    pub fn save(&self) -> (r: SavePlan)
        ensures
            match r {
                SavePlan::RemoveFile => self@.len() == 0,
                SavePlan::Write(t) => self@.len() > 0 && t@ == serialized(self@),
            },
    {
        if self.is_empty() {
            SavePlan::RemoveFile
        } else {
            SavePlan::Write(serialize(self))
        }
    }
}

/// What a look at the file shows.
pub fn status(file: &MapFile) -> (r: MapStatus)
    ensures
        match file {
            MapFile::Absent => r is Absent,
            MapFile::Unreadable(e) => r matches MapStatus::Corrupt(w) && w@ == "read failed: "@
                + e@,
            MapFile::Text(t) => match parsed(t@) {
                Ok(m) => r matches MapStatus::Intact { entries } && entries == m.len(),
                Err(e) => r matches MapStatus::Corrupt(w) && w@ == e,
            },
        },
{
    match file {
        MapFile::Absent => MapStatus::Absent,
        MapFile::Unreadable(e) => {
            let mut w: String = "read failed: ".to_owned();
            w.push_str(e.as_str());
            MapStatus::Corrupt(w)
        },
        MapFile::Text(t) => match parse(t.as_str()) {
            Ok(m) => MapStatus::Intact { entries: m.len() },
            Err(e) => MapStatus::Corrupt(e),
        },
    }
}

/// What is written to the data directory when a map is found beside the program,
/// as it was kept formerly: the same entries in the present form. A file that
/// cannot be used is left alone.
pub fn migrate_legacy(legacy: &MapFile) -> (r: Option<String>)
    ensures
        match r {
            Some(t) => legacy matches MapFile::Text(was) && (parsed(was@) matches Ok(m) && t@
                == serialized(m)),
            None => !(legacy matches MapFile::Text(was) && parsed(was@) is Ok),
        },
{
    match legacy {
        MapFile::Text(t) => match parse(t.as_str()) {
            Ok(m) => Some(serialize(&m)),
            Err(_) => None,
        },
        _ => None,
    }
}

/// Where the next version of a file is written before it replaces the file.
pub fn tmp_path(path: &str) -> (r: String)
    ensures
        r@ == path@ + ".tmp"@,
{
    let mut r: String = path.to_owned();
    r.push_str(".tmp");
    r
}

/// What is said where the directory of the file cannot be made.
pub fn dir_error(dir: &str, why: &str) -> (r: String)
    ensures
        r@ == "restore map dir create failed ("@ + dir@ + "): "@ + why@,
{
    let mut r: String = "restore map dir create failed (".to_owned();
    r.push_str(dir);
    r.push_str("): ");
    r.push_str(why);
    r
}

/// Whether the data directory lies under the local application data: that is so
/// where the variable for it is set and not empty. Else the directory of the
/// program is used.
pub fn data_dir_is_local(local_app_data: Option<&str>) -> (r: bool)
    ensures
        r == (local_app_data matches Some(d) && d@.len() > 0),
{
    match local_app_data {
        Some(d) => !d.is_empty(),
        None => false,
    }
}

} // verus!
