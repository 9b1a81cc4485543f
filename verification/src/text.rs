//! Text as sequences of characters: searching, splitting, trimming, padding.
//!
//! Contracts speak of a string through its view, the sequence of its
//! characters. The functions here work on character slices; `chars_of` and
//! `text_of` convert between them and strings.

use vstd::prelude::*;

verus! {

/// `String::push` appends one character.
pub assume_specification[ String::push ](s: &mut String, c: char)
    ensures
        final(s)@ == old(s)@.push(c),
;

/// `String::push_str` appends the characters of a string slice.
pub assume_specification[ String::push_str ](s: &mut String, t: &str)
    ensures
        final(s)@ == old(s)@ + t@,
;

/// What the `Debug` formatting of a string gives: the text in double quotes,
/// with the characters escaped that `str`'s `Debug` escapes.
pub uninterp spec fn debug_text(s: Seq<char>) -> Seq<char>;

/// `format!("{:?}", s)`: the `Debug` formatting of a string. Nothing is claimed
/// of the text but that it depends on the characters of `s` alone.
#[verifier::external_body]
pub(crate) fn debug_quoted(s: &str) -> (r: String)
    ensures
        r@ == debug_text(s@),
{
    format!("{:?}", s)
}

// ---------------------------------------------------------------------------
// Models
// ---------------------------------------------------------------------------

/// Index of the first `c` in `s`; the length of `s` when there is none.
pub open spec fn first_index(s: Seq<char>, c: char) -> int
    decreases s.len(),
{
    if s.len() == 0 || s[0] == c {
        0
    } else {
        1 + first_index(s.skip(1), c)
    }
}

/// The pieces of `s` between the separators `c`; always at least one piece.
pub open spec fn split(s: Seq<char>, c: char) -> Seq<Seq<char>>
    decreases s.len(),
{
    let i = first_index(s, c);
    if 0 <= i < s.len() {
        seq![s.take(i)] + split(s.skip(i + 1), c)
    } else {
        seq![s]
    }
}

/// `s` without one carriage return at its end.
pub open spec fn strip_cr(s: Seq<char>) -> Seq<char> {
    if s.len() > 0 && s.last() == '\r' {
        s.drop_last()
    } else {
        s
    }
}

/// The lines of `s`: each ends at a line feed, and a carriage return before
/// that line feed belongs to the line ending. Text behind the last line feed is
/// a line of its own, unless it is empty.
pub open spec fn lines(s: Seq<char>) -> Seq<Seq<char>>
    decreases s.len(),
{
    if s.len() == 0 {
        Seq::empty()
    } else {
        let i = first_index(s, '\n');
        if 0 <= i < s.len() {
            seq![strip_cr(s.take(i))] + lines(s.skip(i + 1))
        } else {
            seq![s]
        }
    }
}

/// The characters with the Unicode property White_Space.
pub open spec fn white_space(c: char) -> bool {
    ||| 0x09 <= c as u32 <= 0x0D
    ||| c as u32 == 0x20
    ||| c as u32 == 0x85
    ||| c as u32 == 0xA0
    ||| c as u32 == 0x1680
    ||| 0x2000 <= c as u32 <= 0x200A
    ||| c as u32 == 0x2028
    ||| c as u32 == 0x2029
    ||| c as u32 == 0x202F
    ||| c as u32 == 0x205F
    ||| c as u32 == 0x3000
}

/// `s` without the white space at its start.
pub open spec fn trim_start(s: Seq<char>) -> Seq<char>
    decreases s.len(),
{
    if s.len() > 0 && white_space(s[0]) {
        trim_start(s.skip(1))
    } else {
        s
    }
}

/// `s` without the white space at its end.
pub open spec fn trim_end(s: Seq<char>) -> Seq<char>
    decreases s.len(),
{
    if s.len() > 0 && white_space(s.last()) {
        trim_end(s.drop_last())
    } else {
        s
    }
}

/// `s` without the white space at its start and its end.
pub open spec fn trim(s: Seq<char>) -> Seq<char> {
    trim_end(trim_start(s))
}

/// Whether `m` stands in `s` at index `i`.
pub open spec fn occurs_at(s: Seq<char>, m: Seq<char>, i: int) -> bool {
    0 <= i && i + m.len() <= s.len() && s.subrange(i, i + m.len()) == m
}

/// Whether `m` stands anywhere in `s`.
pub open spec fn contains(s: Seq<char>, m: Seq<char>) -> bool {
    exists|i: int| occurs_at(s, m, i)
}

/// The greatest index up to `k` at which `m` stands in `s`.
pub open spec fn last_occurrence_up_to(s: Seq<char>, m: Seq<char>, k: int) -> Option<int>
    decreases k + 1,
{
    if k < 0 {
        None
    } else if occurs_at(s, m, k) {
        Some(k)
    } else {
        last_occurrence_up_to(s, m, k - 1)
    }
}

/// The greatest index at which `m` stands in `s`.
pub open spec fn last_occurrence(s: Seq<char>, m: Seq<char>) -> Option<int> {
    last_occurrence_up_to(s, m, s.len() as int)
}

/// Whether `s` starts with `p`.
pub open spec fn starts_with(s: Seq<char>, p: Seq<char>) -> bool {
    occurs_at(s, p, 0)
}

/// `s` without every repetition of `p` at its start.
pub open spec fn strip_repeated(s: Seq<char>, p: Seq<char>) -> Seq<char>
    decreases s.len(),
{
    if p.len() > 0 && starts_with(s, p) {
        strip_repeated(s.skip(p.len() as int), p)
    } else {
        s
    }
}

/// `s` where it has at most `max` characters; else its first `max - 1`
/// characters and a tilde.
pub open spec fn clipped(s: Seq<char>, max: nat) -> Seq<char> {
    if s.len() <= max {
        s
    } else if max == 0 {
        seq!['~']
    } else {
        s.take(max - 1).push('~')
    }
}

/// `s` with spaces behind it, to a width of `width` characters at least.
pub open spec fn padded(s: Seq<char>, width: nat) -> Seq<char> {
    if s.len() >= width {
        s
    } else {
        s + Seq::new((width - s.len()) as nat, |i: int| ' ')
    }
}

/// `s` with spaces before it, up to `width` characters.
pub open spec fn right_aligned(s: Seq<char>, width: nat) -> Seq<char> {
    if s.len() >= width {
        s
    } else {
        Seq::new((width - s.len()) as nat, |i: int| ' ') + s
    }
}

/// `c` in lower case where it is an ASCII letter.
pub open spec fn lower_char(c: char) -> char {
    if 'A' <= c && c <= 'Z' {
        ((c as u32 + 32) as u32) as char
    } else {
        c
    }
}

/// `s` with its ASCII letters in lower case.
pub open spec fn lower(s: Seq<char>) -> Seq<char> {
    s.map_values(|c: char| lower_char(c))
}

/// The pieces of `parts` with `sep` between each two.
pub open spec fn joined(parts: Seq<Seq<char>>, sep: Seq<char>) -> Seq<char>
    decreases parts.len(),
{
    if parts.len() == 0 {
        Seq::empty()
    } else if parts.len() == 1 {
        parts[0]
    } else {
        joined(parts.drop_last(), sep) + sep + parts.last()
    }
}

/// The contents of a vector of character vectors.
pub open spec fn pieces(v: Seq<Vec<char>>) -> Seq<Seq<char>> {
    v.map_values(|x: Vec<char>| x@)
}

/// The contents of a vector of strings.
pub open spec fn texts(v: Seq<String>) -> Seq<Seq<char>> {
    v.map_values(|x: String| x@)
}

/// The contents of an optional string.
pub open spec fn opt_text(o: Option<String>) -> Option<Seq<char>> {
    match o {
        Some(s) => Some(s@),
        None => None,
    }
}

/// The error of a result, as a text.
pub open spec fn error_of(r: Result<(), String>) -> Option<Seq<char>> {
    match r {
        Ok(()) => None,
        Err(e) => Some(e@),
    }
}

// ---------------------------------------------------------------------------
// Facts
// ---------------------------------------------------------------------------

/// `first_index` is a position in the text or its length.
pub proof fn lemma_first_index(s: Seq<char>, c: char)
    ensures
        0 <= first_index(s, c) <= s.len(),
        forall|j: int| 0 <= j < first_index(s, c) ==> s[j] != c,
        first_index(s, c) < s.len() ==> s[first_index(s, c)] == c,
    decreases s.len(),
{
    if s.len() > 0 && s[0] != c {
        lemma_first_index(s.skip(1), c);
        assert forall|j: int| 0 <= j < first_index(s, c) implies s[j] != c by {
            if j > 0 {
                assert(s[j] == s.skip(1)[j - 1]);
            }
        }
    }
}

/// The position before which there is no `c`, and at which there is one or the
/// text ends, is the first index.
pub proof fn lemma_first_index_is(s: Seq<char>, c: char, i: int)
    requires
        0 <= i <= s.len(),
        forall|j: int| 0 <= j < i ==> s[j] != c,
        i < s.len() ==> s[i] == c,
    ensures
        first_index(s, c) == i,
{
    lemma_first_index(s, c);
    let k = first_index(s, c);
    if k < i {
        assert(s[k] != c);
    }
    if i < k {
        assert(s[i] != c);
    }
}

/// The first index of a separator behind a text without it.
pub proof fn lemma_first_index_concat(a: Seq<char>, c: char, b: Seq<char>)
    requires
        !a.contains(c),
    ensures
        first_index(a + seq![c] + b, c) == a.len(),
        (a + seq![c] + b).take(a.len() as int) == a,
        (a + seq![c] + b).skip(a.len() as int + 1) == b,
{
    let s = a + seq![c] + b;
    assert forall|j: int| 0 <= j < a.len() implies s[j] != c by {
        assert(s[j] == a[j]);
    }
    lemma_first_index_is(s, c, a.len() as int);
    assert(s.take(a.len() as int) =~= a);
    assert(s.skip(a.len() as int + 1) =~= b);
}

/// A text up to its first line feed is its first line; the lines behind it
/// follow.
pub proof fn lemma_lines_front(a: Seq<char>, b: Seq<char>)
    requires
        !a.contains('\n'),
    ensures
        lines(a + seq!['\n'] + b) == seq![strip_cr(a)] + lines(b),
{
    lemma_first_index_concat(a, '\n', b);
}

/// `last_occurrence` finds the last occurrence, if there is one.
pub proof fn lemma_last_occurrence(s: Seq<char>, m: Seq<char>, k: int)
    ensures
        match last_occurrence_up_to(s, m, k) {
            Some(i) => 0 <= i <= k && occurs_at(s, m, i) && (forall|j: int|
                i < j <= k ==> !occurs_at(s, m, j)),
            None => forall|j: int| 0 <= j <= k ==> !occurs_at(s, m, j),
        },
    decreases k + 1,
{
    if k >= 0 && !occurs_at(s, m, k) {
        lemma_last_occurrence(s, m, k - 1);
    }
}

/// The index at which `m` stands, and behind which it does not, is that of the
/// last occurrence.
pub proof fn lemma_last_occurrence_is(s: Seq<char>, m: Seq<char>, p: int)
    requires
        occurs_at(s, m, p),
        forall|j: int| p < j <= s.len() ==> !occurs_at(s, m, j),
    ensures
        last_occurrence(s, m) == Some(p),
{
    lemma_last_occurrence(s, m, s.len() as int);
}

/// A text contains `m` exactly where `m` has a last occurrence in it.
pub proof fn lemma_contains_iff_last(s: Seq<char>, m: Seq<char>)
    ensures
        contains(s, m) <==> last_occurrence(s, m) is Some,
{
    lemma_last_occurrence(s, m, s.len() as int);
    if contains(s, m) {
        let i = choose|i: int| occurs_at(s, m, i);
        assert(occurs_at(s, m, i) && i <= s.len());
    }
}

// ---------------------------------------------------------------------------
// Laws
// ---------------------------------------------------------------------------

/// A text contains another where it is that one with something before and behind it.
pub proof fn law_contains(s: Seq<char>, m: Seq<char>)
    ensures
        contains(s, m) <==> exists|a: Seq<char>, b: Seq<char>| s == #[trigger] (a + m + b),
{
    if contains(s, m) {
        let i = choose|i: int| occurs_at(s, m, i);
        assert(s =~= s.take(i) + m + s.skip(i + m.len()));
    }
    if exists|a: Seq<char>, b: Seq<char>| s == #[trigger] (a + m + b) {
        let (a, b) = choose|a: Seq<char>, b: Seq<char>| s == #[trigger] (a + m + b);
        let i = a.len() as int;
        assert(s.subrange(i, i + m.len()) =~= m);
        assert(occurs_at(s, m, i));
    }
}

/// A text starts with another where it is that one with something behind it.
pub proof fn law_starts_with(s: Seq<char>, p: Seq<char>)
    ensures
        starts_with(s, p) <==> exists|r: Seq<char>| s == #[trigger] (p + r),
{
    if starts_with(s, p) {
        assert(s =~= p + s.skip(p.len() as int));
    }
    if exists|r: Seq<char>| s == #[trigger] (p + r) {
        let r = choose|r: Seq<char>| s == #[trigger] (p + r);
        assert(s.subrange(0, p.len() as int) =~= p);
    }
}

/// A text is the pieces between its separators, with the separators between them, and no
/// piece holds a separator.
pub proof fn law_split_and_join(s: Seq<char>, c: char)
    ensures
        split(s, c).len() > 0,
        joined(split(s, c), seq![c]) == s,
        forall|i: int| 0 <= i < split(s, c).len() ==> !(#[trigger] split(s, c)[i]).contains(c),
    decreases s.len(),
{
    lemma_first_index(s, c);
    let i = first_index(s, c);
    if i < s.len() {
        let rest = s.skip(i + 1);
        law_split_and_join(rest, c);
        let ps = split(rest, c);
        lemma_joined_front(s.take(i), ps, seq![c]);
        assert(s =~= s.take(i) + seq![c] + rest);
        assert forall|k: int| 0 <= k < split(s, c).len() implies !(#[trigger] split(
            s,
            c,
        )[k]).contains(c) by {
            if k > 0 {
                assert(split(s, c)[k] == ps[k - 1]);
            }
        }
    }
}

/// A piece before others, joined.
proof fn lemma_joined_front(a: Seq<char>, ps: Seq<Seq<char>>, sep: Seq<char>)
    requires
        ps.len() > 0,
    ensures
        joined(seq![a] + ps, sep) == a + sep + joined(ps, sep),
    decreases ps.len(),
{
    let all = seq![a] + ps;
    if ps.len() == 1 {
        assert(all.drop_last() =~= seq![a]);
        assert(all.last() == ps[0]);
        assert(joined(seq![a], sep) == a);
    } else {
        lemma_joined_front(a, ps.drop_last(), sep);
        assert(all.drop_last() =~= seq![a] + ps.drop_last());
        assert(all.last() == ps.last());
        assert(a + sep + joined(ps.drop_last(), sep) + sep + ps.last() =~= a + sep + (joined(
            ps.drop_last(),
            sep,
        ) + sep + ps.last()));
    }
}

/// Joined pieces: nothing gives nothing, one piece is itself, and one more comes behind a
/// separator.
pub proof fn law_joined(ps: Seq<Seq<char>>, x: Seq<char>, sep: Seq<char>)
    ensures
        joined(Seq::empty(), sep) == Seq::<char>::empty(),
        joined(seq![x], sep) == x,
        ps.len() > 0 ==> joined(ps.push(x), sep) == joined(ps, sep) + sep + x,
{
    assert(ps.push(x).drop_last() =~= ps);
}

/// The lines of a text: none where it is empty, one where it holds no line feed, and else
/// what stands before the first line feed, without a carriage return at its end, and the
/// lines behind it.
pub proof fn law_lines(a: Seq<char>, b: Seq<char>)
    requires
        !a.contains('\n'),
    ensures
        lines(Seq::empty()).len() == 0,
        a.len() > 0 ==> lines(a) == seq![a],
        a.len() > 0 && a.last() == '\r' ==> lines(a + seq!['\n'] + b) == seq![a.drop_last()]
            + lines(b),
        a.len() == 0 || a.last() != '\r' ==> lines(a + seq!['\n'] + b) == seq![a] + lines(b),
{
    lemma_lines_front(a, b);
    lemma_first_index_is(a, '\n', a.len() as int);
}

/// Whether a text is white space throughout.
pub open spec fn blank(s: Seq<char>) -> bool {
    forall|i: int| 0 <= i < s.len() ==> white_space(#[trigger] s[i])
}

/// Which characters are white space: tab to carriage return, space, next line, the no-break
/// space, the ogham space mark, en quad to hair space, the line and the paragraph
/// separator, the narrow no-break space, the mathematical space and the ideographic space.
pub proof fn law_white_space(c: char)
    ensures
        white_space(c) <==> ({
            ||| '\u{9}' <= c && c <= '\u{D}'
            ||| c == ' '
            ||| c == '\u{85}'
            ||| c == '\u{A0}'
            ||| c == '\u{1680}'
            ||| '\u{2000}' <= c && c <= '\u{200A}'
            ||| c == '\u{2028}'
            ||| c == '\u{2029}'
            ||| c == '\u{202F}'
            ||| c == '\u{205F}'
            ||| c == '\u{3000}'
        }),
{
}

/// Trimming takes white space off both ends, all of it and nothing else.
pub proof fn law_trim(s: Seq<char>)
    ensures
        trim(s).len() > 0 ==> !white_space(trim(s)[0]) && !white_space(trim(s).last()),
        exists|a: Seq<char>, b: Seq<char>|
            blank(a) && blank(b) && s == #[trigger] (a + trim(s) + b),
{
    lemma_trim_start(s);
    lemma_trim_end(trim_start(s));
    let a = choose|a: Seq<char>| blank(a) && s == #[trigger] (a + trim_start(s));
    let b = choose|b: Seq<char>| blank(b) && trim_start(s) == #[trigger] (trim(s) + b);
    assert(s =~= a + trim(s) + b);
    if trim(s).len() > 0 {
        assert(trim(s)[0] == trim_start(s)[0]);
    }
}

/// What is trimmed off the start is white space.
proof fn lemma_trim_start(s: Seq<char>)
    ensures
        exists|a: Seq<char>| blank(a) && s == #[trigger] (a + trim_start(s)),
        trim_start(s).len() > 0 ==> !white_space(trim_start(s)[0]),
    decreases s.len(),
{
    if s.len() > 0 && white_space(s[0]) {
        lemma_trim_start(s.skip(1));
        let a = choose|a: Seq<char>| blank(a) && s.skip(1) == #[trigger] (a + trim_start(s.skip(1)));
        let b = seq![s[0]] + a;
        assert(blank(b));
        assert(s =~= seq![s[0]] + s.skip(1));
        assert(seq![s[0]] + (a + trim_start(s.skip(1))) =~= b + trim_start(s.skip(1)));
        assert(s == b + trim_start(s));
    } else {
        let a = Seq::<char>::empty();
        assert(blank(a) && s =~= a + trim_start(s));
    }
}

/// What is trimmed off the end is white space.
proof fn lemma_trim_end(s: Seq<char>)
    ensures
        exists|b: Seq<char>| blank(b) && s == #[trigger] (trim_end(s) + b),
        trim_end(s).len() > 0 ==> !white_space(trim_end(s).last()),
    decreases s.len(),
{
    if s.len() > 0 && white_space(s.last()) {
        lemma_trim_end(s.drop_last());
        let b = choose|b: Seq<char>|
            blank(b) && s.drop_last() == #[trigger] (trim_end(s.drop_last()) + b);
        let c = b.push(s.last());
        assert(blank(c));
        assert(s =~= s.drop_last().push(s.last()));
        assert((trim_end(s.drop_last()) + b).push(s.last()) =~= trim_end(s.drop_last()) + c);
        assert(s == trim_end(s) + c);
    } else {
        let b = Seq::<char>::empty();
        assert(blank(b) && s =~= trim_end(s) + b);
    }
}

/// White space around a text that neither begins nor ends with it is what is trimmed off.
pub proof fn lemma_trim_is(a: Seq<char>, s: Seq<char>, b: Seq<char>)
    requires
        blank(a),
        blank(b),
        s.len() > 0,
        !white_space(s[0]),
        !white_space(s.last()),
    ensures
        trim(a + s + b) == s,
    decreases a.len() + b.len(),
{
    let t = a + s + b;
    if a.len() > 0 {
        assert(t[0] == a[0]);
        assert(white_space(a[0]));
        assert(t.skip(1) =~= a.skip(1) + s + b);
        assert forall|i: int| 0 <= i < a.skip(1).len() implies white_space(
            #[trigger] a.skip(1)[i],
        ) by {
            assert(a.skip(1)[i] == a[i + 1]);
        }
        lemma_trim_is(a.skip(1), s, b);
    } else {
        assert(t =~= s + b);
        assert(t[0] == s[0]);
        lemma_trim_end_is(s, b);
    }
}

/// White space behind a text that does not end with it is what is trimmed off.
proof fn lemma_trim_end_is(s: Seq<char>, b: Seq<char>)
    requires
        blank(b),
        s.len() > 0,
        !white_space(s.last()),
    ensures
        trim_end(s + b) == s,
    decreases b.len(),
{
    let t = s + b;
    if b.len() > 0 {
        assert(t.last() == b[b.len() - 1]);
        assert(white_space(b[b.len() - 1]));
        assert(t.drop_last() =~= s + b.drop_last());
        assert forall|i: int| 0 <= i < b.drop_last().len() implies white_space(
            #[trigger] b.drop_last()[i],
        ) by {
            assert(b.drop_last()[i] == b[i]);
        }
        lemma_trim_end_is(s, b.drop_last());
    } else {
        assert(t =~= s);
    }
}

/// Repetitions of a text are taken off the front one by one, until there is none.
pub proof fn law_strip_repeated(s: Seq<char>, p: Seq<char>)
    requires
        p.len() > 0,
    ensures
        strip_repeated(p + s, p) == strip_repeated(s, p),
        !starts_with(strip_repeated(s, p), p),
        !starts_with(s, p) ==> strip_repeated(s, p) == s,
    decreases s.len(),
{
    assert((p + s).subrange(0, p.len() as int) =~= p);
    assert((p + s).skip(p.len() as int) =~= s);
    if starts_with(s, p) {
        law_strip_repeated(s.skip(p.len() as int), p);
    }
}

/// A clipped text has at most the length asked for: it is the text itself, or what fits of
/// its front with a tilde behind it.
pub proof fn law_clipped(s: Seq<char>, max: nat)
    ensures
        s.len() <= max ==> clipped(s, max) == s,
        s.len() > max > 0 ==> clipped(s, max).len() == max && clipped(s, max).last() == '~'
            && clipped(s, max).drop_last() == s.take(max - 1),
        s.len() > max && max == 0 ==> clipped(s, max) == seq!['~'],
{
    if s.len() > max && max > 0 {
        assert(clipped(s, max).drop_last() =~= s.take(max - 1));
    }
}

/// A padded text has at least the width asked for: the text stands at its side, and there
/// are only spaces beside it.
pub proof fn law_padded(s: Seq<char>, width: nat)
    ensures
        padded(s, width).len() == (if s.len() >= width {
            s.len()
        } else {
            width
        }),
        padded(s, width).take(s.len() as int) == s,
        forall|i: int| s.len() <= i < padded(s, width).len() ==> padded(s, width)[i] == ' ',
        right_aligned(s, width).len() == padded(s, width).len(),
        right_aligned(s, width).skip(right_aligned(s, width).len() - s.len()) == s,
        forall|i: int|
            0 <= i < right_aligned(s, width).len() - s.len() ==> right_aligned(s, width)[i] == ' ',
{
    assert(padded(s, width).take(s.len() as int) =~= s);
    assert(right_aligned(s, width).skip(right_aligned(s, width).len() - s.len()) =~= s);
}

/// Lower case changes the letters A to Z alone, each by the same distance.
pub proof fn law_lower(s: Seq<char>)
    ensures
        lower(s).len() == s.len(),
        forall|i: int|
            0 <= i < s.len() ==> #[trigger] lower(s)[i] as u32 == (if 'A' <= s[i] && s[i] <= 'Z' {
                s[i] as u32 + ('a' as u32 - 'A' as u32)
            } else {
                s[i] as int
            }),
{
    assert forall|i: int| 0 <= i < s.len() implies #[trigger] lower(s)[i] as u32 == (if 'A' <= s[i]
        && s[i] <= 'Z' {
        s[i] as u32 + ('a' as u32 - 'A' as u32)
    } else {
        s[i] as int
    }) by {
        lemma_lower_char(s[i]);
    }
}

/// The same of one character.
proof fn lemma_lower_char(c: char)
    ensures
        lower_char(c) as u32 == (if 'A' <= c && c <= 'Z' {
            c as u32 + 32
        } else {
            c as int
        }),
{
}

/// The last occurrence of a text in another: it stands there, and nowhere behind.
pub proof fn law_last_occurrence(s: Seq<char>, m: Seq<char>, i: int)
    ensures
        last_occurrence(s, m) == Some(i) <==> {
            &&& 0 <= i <= s.len() - m.len()
            &&& s.subrange(i, i + m.len()) == m
            &&& forall|j: int|
                i < j <= s.len() - m.len() ==> #[trigger] s.subrange(j, j + m.len()) != m
        },
        last_occurrence(s, m) is None ==> !contains(s, m),
{
    lemma_last_occurrence(s, m, s.len() as int);
    lemma_contains_iff_last(s, m);
    if 0 <= i <= s.len() - m.len() && s.subrange(i, i + m.len()) == m && (forall|j: int|
        i < j <= s.len() - m.len() ==> #[trigger] s.subrange(j, j + m.len()) != m) {
        assert forall|j: int| i < j <= s.len() implies !occurs_at(s, m, j) by {
            if j <= s.len() - m.len() {
                assert(s.subrange(j, j + m.len()) != m);
            }
        }
        lemma_last_occurrence_is(s, m, i);
    }
    if last_occurrence(s, m) == Some(i) {
        assert forall|j: int| i < j <= s.len() - m.len() implies #[trigger] s.subrange(
            j,
            j + m.len(),
        ) != m by {
            assert(!occurs_at(s, m, j));
        }
    }
}

/// The contents of strings are taken one by one.
pub proof fn law_texts(v: Seq<String>, i: int)
    ensures
        texts(v).len() == v.len(),
        0 <= i < v.len() ==> texts(v)[i] == v[i]@,
{
}

/// The same of pieces, of a text that may be there, and of an error.
pub proof fn law_pieces(v: Seq<Vec<char>>, i: int, s: String)
    ensures
        pieces(v).len() == v.len(),
        0 <= i < v.len() ==> pieces(v)[i] == v[i]@,
        opt_text(Some(s)) == Some(s@),
        opt_text(None) is None,
        error_of(Err(s)) == Some(s@),
        error_of(Ok(())) is None,
{
}

/// A line that follows others, each with its line feed, is a line of its own behind them.
pub proof fn lemma_lines_push(t: Seq<char>, line: Seq<char>)
    requires
        t.len() > 0 ==> t.last() == '\n',
        !line.contains('\n'),
    ensures
        lines(t + line + seq!['\n']) == lines(t).push(strip_cr(line)),
    decreases t.len(),
{
    let none = Seq::<char>::empty();
    assert(lines(none) =~= Seq::<Seq<char>>::empty());
    if t.len() == 0 {
        assert(t + line + seq!['\n'] =~= line + seq!['\n'] + none);
        lemma_lines_front(line, none);
        assert(lines(t).push(strip_cr(line)) =~= seq![strip_cr(line)]
            + lines(none));
    } else {
        lemma_first_index(t, '\n');
        let i = first_index(t, '\n');
        if i == t.len() {
            assert(t[t.len() - 1] != '\n');
        }
        let a = t.take(i);
        let rest = t.skip(i + 1);
        assert(!a.contains('\n'));
        assert(t =~= a + seq!['\n'] + rest);
        lemma_lines_front(a, rest);
        assert(t + line + seq!['\n'] =~= a + seq!['\n'] + (rest + line + seq!['\n']));
        lemma_lines_front(a, rest + line + seq!['\n']);
        if rest.len() > 0 {
            assert(rest.last() == t.last());
        }
        lemma_lines_push(rest, line);
        assert((seq![strip_cr(a)] + lines(rest)).push(strip_cr(line)) =~= seq![
            strip_cr(a),
        ] + lines(rest).push(strip_cr(line)));
    }
}

// ---------------------------------------------------------------------------
// Functions
// ---------------------------------------------------------------------------

/// The characters of a string.
pub fn chars_of(s: &str) -> (v: Vec<char>)
    ensures
        v@ == s@,
{
    let mut v: Vec<char> = Vec::new();
    for c in it: s.chars()
        invariant
            it.seq() == s@,
            v@ == s@.take(it.index()),
    {
        v.push(c);
        assert(s@.take(it.index() + 1) == s@.take(it.index()).push(c));
    }
    assert(s@.take(s@.len() as int) == s@);
    v
}

/// The string with the given characters.
pub fn text_of(v: &[char]) -> (s: String)
    ensures
        s@ == v@,
{
    let mut s: String = String::new();
    let mut i: usize = 0;
    while i < v.len()
        invariant
            i <= v.len(),
            s@ == v@.take(i as int),
        decreases v.len() - i,
    {
        s.push(v[i]);
        i += 1;
        assert(v@.take(i as int) == v@.take(i - 1).push(v[i - 1]));
    }
    assert(v@.take(v@.len() as int) == v@);
    s
}

/// A copy of the characters from index `from` up to index `to`.
pub fn copy_range(v: &[char], from: usize, to: usize) -> (r: Vec<char>)
    requires
        from <= to <= v@.len(),
    ensures
        r@ == v@.subrange(from as int, to as int),
{
    let mut r: Vec<char> = Vec::new();
    let mut i: usize = from;
    while i < to
        invariant
            from <= i <= to <= v@.len(),
            r@ == v@.subrange(from as int, i as int),
        decreases to - i,
    {
        r.push(v[i]);
        i += 1;
        assert(v@.subrange(from as int, i as int) == v@.subrange(from as int, i - 1).push(v[i - 1]));
    }
    r
}

/// Whether `m` stands in `s` at index `i`.
pub fn stands_at(s: &[char], m: &[char], i: usize) -> (r: bool)
    ensures
        r == occurs_at(s@, m@, i as int),
{
    if i > s.len() || m.len() > s.len() - i {
        return false;
    }
    let n: usize = s.len();
    let mut k: usize = 0;
    while k < m.len()
        invariant
            k <= m@.len(),
            n == s@.len(),
            i + m@.len() <= n,
            forall|j: int| 0 <= j < k ==> s@[i + j] == m@[j],
        decreases m@.len() - k,
    {
        if s[i + k] != m[k] {
            assert(s@.subrange(i as int, i + m@.len())[k as int] != m@[k as int]);
            return false;
        }
        k += 1;
    }
    assert(s@.subrange(i as int, i + m@.len()) =~= m@);
    true
}

/// Whether two character slices are equal.
pub fn same_chars(a: &[char], b: &[char]) -> (r: bool)
    ensures
        r == (a@ == b@),
{
    if a.len() != b.len() {
        return false;
    }
    let r: bool = stands_at(a, b, 0);
    assert(a@.subrange(0, a@.len() as int) == a@);
    r
}

/// Whether two strings are equal.
pub fn same_text(a: &str, b: &str) -> (r: bool)
    ensures
        r == (a@ == b@),
{
    same_chars(chars_of(a).as_slice(), chars_of(b).as_slice())
}

/// Whether the characters `a` are those of the string `b`.
pub fn is_text(a: &[char], b: &str) -> (r: bool)
    ensures
        r == (a@ == b@),
{
    same_chars(a, chars_of(b).as_slice())
}

/// The last index at which `m` stands in `s`.
pub fn find_last(s: &[char], m: &[char]) -> (r: Option<usize>)
    ensures
        match r {
            Some(i) => last_occurrence(s@, m@) == Some(i as int),
            None => last_occurrence(s@, m@) is None,
        },
{
    let mut k: usize = s.len();
    loop
        invariant
            k <= s@.len(),
            last_occurrence(s@, m@) == last_occurrence_up_to(s@, m@, k as int),
        decreases k,
    {
        if stands_at(s, m, k) {
            return Some(k);
        }
        if k == 0 {
            assert(last_occurrence_up_to(s@, m@, -1) is None);
            return None;
        }
        k -= 1;
    }
}

/// Whether `m` stands anywhere in `s`.
pub fn contains_text(s: &str, m: &str) -> (r: bool)
    ensures
        r == contains(s@, m@),
{
    proof {
        lemma_contains_iff_last(s@, m@);
    }
    find_last(chars_of(s).as_slice(), chars_of(m).as_slice()).is_some()
}

/// Whether `s` starts with `p`.
pub fn has_prefix(s: &str, p: &str) -> (r: bool)
    ensures
        r == starts_with(s@, p@),
{
    stands_at(chars_of(s).as_slice(), chars_of(p).as_slice(), 0)
}

/// The first index from `from` on at which `c` stands in `s`, or the length.
pub fn index_from(s: &[char], c: char, from: usize) -> (r: usize)
    requires
        from <= s@.len(),
    ensures
        from <= r <= s@.len(),
        r == from + first_index(s@.skip(from as int), c),
        forall|j: int| from <= j < r ==> s@[j] != c,
        r < s@.len() ==> s@[r as int] == c,
{
    let mut i: usize = from;
    while i < s.len() && s[i] != c
        invariant
            from <= i <= s@.len(),
            forall|j: int| from <= j < i ==> s@[j] != c,
        decreases s@.len() - i,
    {
        i += 1;
    }
    proof {
        let t = s@.skip(from as int);
        assert forall|j: int| 0 <= j < i - from implies t[j] != c by {
            assert(t[j] == s@[from + j]);
        }
        lemma_first_index_is(t, c, i - from);
    }
    i
}

/// The pieces of `s` between the separators `c`.
pub fn split_chars(s: &[char], c: char) -> (r: Vec<Vec<char>>)
    ensures
        pieces(r@) == split(s@, c),
{
    let mut r: Vec<Vec<char>> = Vec::new();
    let mut from: usize = 0;
    assert(s@.skip(0) == s@);
    assert(pieces(r@) + split(s@, c) == split(s@, c));
    loop
        invariant
            from <= s@.len(),
            pieces(r@) + split(s@.skip(from as int), c) == split(s@, c),
        decreases s@.len() - from,
    {
        let ghost before = pieces(r@);
        let ghost t = s@.skip(from as int);
        let i: usize = index_from(s, c, from);
        let piece: Vec<char> = copy_range(s, from, i);
        r.push(piece);
        proof {
            assert(pieces(r@) =~= before.push(piece@));
            assert(piece@ =~= t.take(i - from));
        }
        if i == s.len() {
            proof {
                assert(t.take(i - from) =~= t);
                assert(split(t, c) == seq![t]);
                assert(before + seq![t] =~= before.push(t));
            }
            return r;
        }
        proof {
            assert(t.skip(i - from + 1) =~= s@.skip(i + 1));
            assert(before + (seq![t.take(i - from)] + split(s@.skip(i + 1), c)) =~= before.push(
                t.take(i - from),
            ) + split(s@.skip(i + 1), c));
        }
        from = i + 1;
    }
}

/// The lines of `s`.
pub fn line_list(s: &[char]) -> (r: Vec<Vec<char>>)
    ensures
        pieces(r@) == lines(s@),
{
    let mut r: Vec<Vec<char>> = Vec::new();
    let mut from: usize = 0;
    assert(s@.skip(0) == s@);
    assert(pieces(r@) + lines(s@) == lines(s@));
    while from < s.len()
        invariant
            from <= s@.len(),
            pieces(r@) + lines(s@.skip(from as int)) == lines(s@),
        decreases s@.len() - from,
    {
        let ghost before = pieces(r@);
        let ghost t = s@.skip(from as int);
        let i: usize = index_from(s, '\n', from);
        if i == s.len() {
            let piece: Vec<char> = copy_range(s, from, i);
            r.push(piece);
            proof {
                assert(pieces(r@) =~= before.push(piece@));
                assert(piece@ =~= t);
                assert(lines(t) == seq![t]);
                assert(before + seq![t] =~= before.push(t));
            }
            return r;
        }
        let end: usize = if i > from && s[i - 1] == '\r' {
            i - 1
        } else {
            i
        };
        let piece: Vec<char> = copy_range(s, from, end);
        r.push(piece);
        proof {
            let head = t.take(i - from);
            assert(pieces(r@) =~= before.push(piece@));
            if i > from {
                assert(head.last() == s@[i - 1]);
            }
            assert(piece@ =~= strip_cr(head));
            assert(t.skip(i - from + 1) =~= s@.skip(i + 1));
            assert(before + (seq![strip_cr(head)] + lines(s@.skip(i + 1))) =~= before.push(
                strip_cr(head),
            ) + lines(s@.skip(i + 1)));
        }
        from = i + 1;
    }
    proof {
        assert(s@.skip(from as int) =~= Seq::<char>::empty());
        assert(pieces(r@) + Seq::<Seq<char>>::empty() =~= pieces(r@));
    }
    r
}

/// Whether a character has the Unicode property White_Space.
pub fn is_white_space(c: char) -> (r: bool)
    ensures
        r == white_space(c),
{
    let u: u32 = c as u32;
    (0x09 <= u && u <= 0x0D) || u == 0x20 || u == 0x85 || u == 0xA0 || u == 0x1680 || (0x2000 <= u
        && u <= 0x200A) || u == 0x2028 || u == 0x2029 || u == 0x202F || u == 0x205F || u == 0x3000
}

/// `s` without the white space at its start and its end.
pub fn trimmed(s: &[char]) -> (r: Vec<char>)
    ensures
        r@ == trim(s@),
{
    let mut from: usize = 0;
    assert(s@.skip(0) == s@);
    while from < s.len() && is_white_space(s[from])
        invariant
            from <= s@.len(),
            trim_start(s@.skip(from as int)) == trim_start(s@),
        decreases s@.len() - from,
    {
        assert(s@.skip(from as int).skip(1) =~= s@.skip(from + 1));
        assert(s@.skip(from as int)[0] == s@[from as int]);
        from += 1;
    }
    let ghost t = s@.skip(from as int);
    proof {
        if from < s@.len() {
            assert(t[0] == s@[from as int]);
        }
        assert(trim_start(s@) == t);
    }
    let mut to: usize = s.len();
    assert(s@.subrange(from as int, to as int) =~= t);
    while from < to && is_white_space(s[to - 1])
        invariant
            from <= to <= s@.len(),
            trim_end(s@.subrange(from as int, to as int)) == trim_end(t),
        decreases to,
    {
        assert(s@.subrange(from as int, to as int).drop_last() =~= s@.subrange(
            from as int,
            to - 1,
        ));
        assert(s@.subrange(from as int, to as int).last() == s@[to - 1]);
        to -= 1;
    }
    proof {
        if from < to {
            assert(s@.subrange(from as int, to as int).last() == s@[to - 1]);
        }
    }
    copy_range(s, from, to)
}

/// `s` without every repetition of `p` at its start.
pub fn without_repeated(s: &[char], p: &[char]) -> (r: Vec<char>)
    requires
        p@.len() > 0,
    ensures
        r@ == strip_repeated(s@, p@),
{
    let n: usize = s.len();
    let mut from: usize = 0;
    assert(s@.skip(0) == s@);
    while stands_at(s, p, from)
        invariant
            n == s@.len(),
            from <= n,
            p@.len() > 0,
            strip_repeated(s@.skip(from as int), p@) == strip_repeated(s@, p@),
        decreases s@.len() - from,
    {
        proof {
            let t = s@.skip(from as int);
            assert(t.subrange(0, p@.len() as int) =~= s@.subrange(from as int, from + p@.len()));
            assert(t.skip(p@.len() as int) =~= s@.skip(from + p@.len()));
        }
        from += p.len();
    }
    proof {
        let t = s@.skip(from as int);
        if starts_with(t, p@) {
            assert(t.subrange(0, p@.len() as int) =~= s@.subrange(from as int, from + p@.len()));
        }
        assert(s@.subrange(from as int, s@.len() as int) =~= t);
    }
    copy_range(s, from, s.len())
}

/// `s` cut to at most `max` characters, with a tilde where it was cut.
pub fn clip_text(s: &str, max: usize) -> (r: String)
    ensures
        r@ == clipped(s@, max as nat),
{
    let v: Vec<char> = chars_of(s);
    if v.len() <= max {
        return s.to_owned();
    }
    let keep: usize = if max == 0 {
        0
    } else {
        max - 1
    };
    let mut t: Vec<char> = copy_range(v.as_slice(), 0, keep);
    t.push('~');
    text_of(t.as_slice())
}

/// `s` with spaces behind it, to a width of `width` characters at least.
pub fn pad(s: &str, width: usize) -> (r: String)
    ensures
        r@ == padded(s@, width as nat),
{
    let mut r: String = s.to_owned();
    let mut n: usize = chars_of(s).len();
    let ghost len = s@.len();
    while n < width
        invariant
            len == s@.len(),
            len <= n,
            n <= width || n == len,
            r@ == s@ + Seq::new((n - len) as nat, |i: int| ' '),
        decreases width - n,
    {
        r.push(' ');
        n += 1;
        assert(r@ =~= s@ + Seq::new((n - len) as nat, |i: int| ' '));
    }
    assert(r@ =~= padded(s@, width as nat));
    r
}

/// `s` with spaces before it, up to `width` characters.
pub fn pad_left(s: &str, width: usize) -> (r: String)
    ensures
        r@ == right_aligned(s@, width as nat),
{
    let n: usize = chars_of(s).len();
    let mut r: String = String::new();
    if n < width {
        let missing: usize = width - n;
        let mut k: usize = 0;
        while k < missing
            invariant
                k <= missing,
                r@ == Seq::new(k as nat, |i: int| ' '),
            decreases missing - k,
        {
            r.push(' ');
            k += 1;
            assert(r@ =~= Seq::new(k as nat, |i: int| ' '));
        }
    }
    r.push_str(s);
    assert(r@ =~= right_aligned(s@, width as nat));
    r
}

/// `c` in lower case where it is an ASCII letter.
pub fn to_lower(c: char) -> (r: char)
    ensures
        r == lower_char(c),
{
    if 'A' <= c && c <= 'Z' {
        ((c as u8) + 32) as char
    } else {
        c
    }
}

/// `s` with its ASCII letters in lower case.
pub fn lowered(s: &[char]) -> (r: Vec<char>)
    ensures
        r@ == lower(s@),
{
    let mut r: Vec<char> = Vec::new();
    let mut i: usize = 0;
    while i < s.len()
        invariant
            i <= s@.len(),
            r@.len() == i,
            forall|j: int| 0 <= j < i ==> r@[j] == lower_char(s@[j]),
        decreases s@.len() - i,
    {
        r.push(to_lower(s[i]));
        i += 1;
    }
    assert(r@ =~= lower(s@));
    r
}

/// The pieces of `parts` with `sep` between each two.
pub fn join_pieces(parts: &Vec<Vec<char>>, sep: char) -> (r: Vec<char>)
    ensures
        r@ == joined(pieces(parts@), seq![sep]),
{
    let mut r: Vec<char> = Vec::new();
    let mut i: usize = 0;
    let ghost all = pieces(parts@);
    while i < parts.len()
        invariant
            all == pieces(parts@),
            i <= parts@.len(),
            r@ == joined(all.take(i as int), seq![sep]),
        decreases parts@.len() - i,
    {
        let ghost was = r@;
        if i > 0 {
            r.push(sep);
        }
        let mut k: usize = 0;
        let ghost start = r@;
        while k < parts[i].len()
            invariant
                i < parts@.len(),
                k <= parts@[i as int]@.len(),
                r@ == start + parts@[i as int]@.take(k as int),
            decreases parts@[i as int]@.len() - k,
        {
            r.push(parts[i][k]);
            k += 1;
            assert(r@ =~= start + parts@[i as int]@.take(k as int));
        }
        proof {
            let next = all.take(i + 1);
            assert(next.drop_last() =~= all.take(i as int));
            assert(next.last() == parts@[i as int]@);
            assert(parts@[i as int]@.take(k as int) =~= parts@[i as int]@);
            if i > 0 {
                assert(start =~= was + seq![sep]);
            } else {
                assert(r@ =~= next[0]);
            }
        }
        i += 1;
    }
    assert(all.take(i as int) =~= all);
    r
}

/// Adds a line to others.
pub fn say(out: &mut Vec<String>, line: String)
    ensures
        texts(final(out)@) == texts(old(out)@).push(line@),
{
    out.push(line);
    assert(texts(out@) =~= texts(old(out)@).push(line@));
}

/// No lines.
pub fn no_lines() -> (out: Vec<String>)
    ensures
        texts(out@) == Seq::<Seq<char>>::empty(),
{
    let out: Vec<String> = Vec::new();
    assert(texts(out@) =~= Seq::<Seq<char>>::empty());
    out
}

/// One line.
pub fn one_line(line: String) -> (out: Vec<String>)
    ensures
        texts(out@) == seq![line@],
{
    let mut out: Vec<String> = no_lines();
    say(&mut out, line);
    out
}

} // verus!
