//! Application ids (AppUserModelIDs): the two kinds of markers that a window's
//! id can carry.
//!
//! - The per-window suffix `~TBG~w<HWND>`, which gives each window a taskbar
//!   button of its own.
//! - The shared id `TBG.Group.<name>`, which puts windows into one group.

use vstd::prelude::*;

use crate::num;
use crate::text;
use crate::utf16;

verus! {

/// What stands between an original id and the handle of its window.
pub const SUFFIX_MARKER: &'static str = "~TBG~w";

/// The greatest length of an id, in UTF-16 code units.
pub const AUMID_MAX_LEN: usize = 129;

/// What a shared group id starts with.
pub const GROUP_PREFIX: &'static str = "TBG.Group.";

/// An id with a per-window suffix.
pub struct SuffixedAumid {
    /// The whole id.
    pub value: String,
    /// Whether the original was cut to fit.
    pub truncated: bool,
}

// ---------------------------------------------------------------------------
// Models
// ---------------------------------------------------------------------------

/// The characters that a group name may have.
pub open spec fn group_char(c: char) -> bool {
    ||| 'a' <= c && c <= 'z'
    ||| 'A' <= c && c <= 'Z'
    ||| '0' <= c && c <= '9'
    ||| c == '.'
    ||| c == '_'
    ||| c == '-'
}

/// A group name: 1 to 32 of the characters `A-Z a-z 0-9 . _ -`.
pub open spec fn group_name(name: Seq<char>) -> bool {
    &&& 1 <= name.len() <= 32
    &&& forall|i: int| 0 <= i < name.len() ==> group_char(#[trigger] name[i])
}

/// The shared id of a group.
pub open spec fn group_value(name: Seq<char>) -> Seq<char> {
    GROUP_PREFIX@ + name
}

/// What is said of a name that is no group name.
pub open spec fn group_name_error(name: Seq<char>) -> Seq<char> {
    "invalid group name '"@ + name + "' (allowed: 1-32 chars of A-Z a-z 0-9 . _ -)"@
}

/// Whether an id is a shared group id: the prefix with something behind it.
pub open spec fn is_group(aumid: Seq<char>) -> bool {
    text::starts_with(aumid, GROUP_PREFIX@) && aumid.len() > GROUP_PREFIX@.len()
}

/// Whether an id holds the suffix marker anywhere.
pub open spec fn has_marker(aumid: Seq<char>) -> bool {
    text::contains(aumid, SUFFIX_MARKER@)
}

/// How many code units of an original fit before the suffix of a window.
pub open spec fn room(hwnd: usize) -> int {
    AUMID_MAX_LEN - (SUFFIX_MARKER@.len() + num::hex(hwnd as nat).len())
}

/// Whether an original fits before the suffix of a window.
pub open spec fn fits(original: Seq<char>, hwnd: usize) -> bool {
    utf16::units(original).len() <= room(hwnd)
}

/// The part of an original that stands before the suffix: all of it where it
/// fits, else as many of its code units as do.
pub open spec fn head(original: Seq<char>, hwnd: usize) -> Seq<char> {
    if fits(original, hwnd) {
        original
    } else {
        utf16::decoded(utf16::units(original).take(room(hwnd)))
    }
}

/// An original with the suffix of a window.
pub open spec fn suffixed(original: Seq<char>, hwnd: usize) -> Seq<char> {
    head(original, hwnd) + SUFFIX_MARKER@ + num::hex(hwnd as nat)
}

/// What stands before the suffix of a window; `None` where the id does not end
/// in the last marker that it holds and that window's handle.
pub open spec fn stripped(aumid: Seq<char>, hwnd: usize) -> Option<Seq<char>> {
    match text::last_occurrence(aumid, SUFFIX_MARKER@) {
        Some(p) => if aumid.skip(p + SUFFIX_MARKER@.len()) == num::hex(hwnd as nat) {
            Some(aumid.take(p))
        } else {
            None
        },
        None => None,
    }
}

/// Whether a text holds a control character below U+0020.
pub open spec fn has_control(v: Seq<char>) -> bool {
    exists|i: int| 0 <= i < v.len() && (#[trigger] v[i] as u32) < 0x20
}

/// What is wrong with an id given by the user: it is empty, too long, or holds a
/// control character, looked at in this order.
pub open spec fn value_error(v: Seq<char>) -> Option<Seq<char>> {
    let n = utf16::units(v).len();
    if n == 0 {
        Some("value must not be empty"@)
    } else if n > AUMID_MAX_LEN {
        Some(
            "value too long ("@ + num::decimal(n) + " UTF-16 units > limit "@ + num::decimal(
                AUMID_MAX_LEN as nat,
            ) + ")"@,
        )
    } else if has_control(v) {
        Some("value must not contain control characters (tab / newline / others < U+0020)"@)
    } else {
        None
    }
}

// ---------------------------------------------------------------------------
// Laws
// ---------------------------------------------------------------------------

/// The suffix of a window takes 7 to 22 code units, so that there is room for
/// at least 107 before it.
pub proof fn lemma_room(hwnd: usize)
    ensures
        SUFFIX_MARKER@.len() == 6,
        107 <= room(hwnd) <= 122,
{
    reveal_strlit("~TBG~w");
    num::lemma_hex_len(hwnd);
}

/// In an id made of anything, the marker and digits, the marker does not start
/// behind that place.
proof fn lemma_no_later_marker(front: Seq<char>, digits: Seq<char>, j: int)
    requires
        num::upper_hex_digits(digits),
        j > front.len(),
    ensures
        !text::occurs_at(front + SUFFIX_MARKER@ + digits, SUFFIX_MARKER@, j),
{
    reveal_strlit("~TBG~w");
    let m = SUFFIX_MARKER@;
    let s = front + m + digits;
    let p = front.len() as int;
    if text::occurs_at(s, m, j) {
        let t = s.subrange(j, j + 6);
        assert(t == m);
        assert(t[0] == s[j]);
        assert(t[1] == s[j + 1]);
        assert(m[0] == '~' && m[1] == 'T');
        if j >= p + 6 {
            assert(s[j] == digits[j - p - 6]);
            assert(num::upper_hex_digit(digits[j - p - 6]));
        } else {
            assert(s[j] == m[j - p]);
            assert(s[p + 5] == m[5]);
        }
    }
}

/// In an id made of anything, the marker and the digits of a handle, the last
/// marker is the one before the handle.
proof fn lemma_last_marker(front: Seq<char>, digits: Seq<char>)
    requires
        num::upper_hex_digits(digits),
    ensures
        text::last_occurrence(front + SUFFIX_MARKER@ + digits, SUFFIX_MARKER@) == Some(
            front.len() as int,
        ),
{
    let m = SUFFIX_MARKER@;
    let s = front + m + digits;
    let p = front.len() as int;
    assert(s.subrange(p, p + m.len()) =~= m);
    assert forall|j: int| p < j <= s.len() implies !text::occurs_at(s, m, j) by {
        lemma_no_later_marker(front, digits, j);
    }
    text::lemma_last_occurrence_is(s, m, p);
}

/// Taking the suffix off gives back what stands before it; where the original
/// fits, that is the original itself.
pub proof fn law_strip_undoes_suffix(original: Seq<char>, hwnd: usize)
    ensures
        stripped(suffixed(original, hwnd), hwnd) == Some(head(original, hwnd)),
        fits(original, hwnd) ==> stripped(suffixed(original, hwnd), hwnd) == Some(original),
{
    num::lemma_numeral(hwnd as nat, 16);
    let h = head(original, hwnd);
    let d = num::hex(hwnd as nat);
    lemma_last_marker(h, d);
    let s = suffixed(original, hwnd);
    assert(s.skip((h.len() + SUFFIX_MARKER@.len()) as int) =~= d);
    assert(s.take(h.len() as int) =~= h);
}

/// The suffix of a window is taken off for that window only.
pub proof fn law_strip_is_for_one_window(aumid: Seq<char>, a: usize, b: usize)
    requires
        stripped(aumid, a) is Some,
        stripped(aumid, b) is Some,
    ensures
        a == b,
{
    num::lemma_numeral_injective(a as nat, b as nat, 16);
}

/// Two windows never get the same suffixed id, whatever their originals were.
pub proof fn law_suffixed_ids_differ(x: Seq<char>, a: usize, y: Seq<char>, b: usize)
    requires
        a != b,
    ensures
        suffixed(x, a) != suffixed(y, b),
{
    law_strip_undoes_suffix(x, a);
    law_strip_undoes_suffix(y, b);
    if suffixed(x, a) == suffixed(y, b) {
        law_strip_is_for_one_window(suffixed(x, a), a, b);
    }
}

/// A suffixed id keeps to the length limit, and uses all of it where the original
/// was cut.
pub proof fn law_suffixed_within_limit(original: Seq<char>, hwnd: usize)
    ensures
        utf16::units(suffixed(original, hwnd)).len() <= AUMID_MAX_LEN,
        !fits(original, hwnd) ==> utf16::units(suffixed(original, hwnd)).len() == AUMID_MAX_LEN,
{
    reveal_strlit("~TBG~w");
    let h = head(original, hwnd);
    let d = num::hex(hwnd as nat);
    lemma_room(hwnd);
    num::lemma_numeral(hwnd as nat, 16);
    utf16::lemma_units_concat(h + SUFFIX_MARKER@, d);
    utf16::lemma_units_concat(h, SUFFIX_MARKER@);
    utf16::lemma_units_basic(SUFFIX_MARKER@);
    assert forall|i: int| 0 <= i < d.len() implies (#[trigger] d[i] as u32) < 0x10000 by {
        assert(num::upper_hex_digit(d[i]));
    }
    utf16::lemma_units_basic(d);
    if !fits(original, hwnd) {
        utf16::lemma_decoded_units_len(utf16::units(original).take(room(hwnd)));
    }
}

/// A suffixed id holds the marker.
pub proof fn law_suffixed_has_marker(original: Seq<char>, hwnd: usize)
    ensures
        has_marker(suffixed(original, hwnd)),
{
    law_strip_undoes_suffix(original, hwnd);
    text::lemma_contains_iff_last(suffixed(original, hwnd), SUFFIX_MARKER@);
}

/// An id from which a suffix can be taken off holds the marker.
pub proof fn law_stripped_has_marker(aumid: Seq<char>, hwnd: usize)
    requires
        stripped(aumid, hwnd) is Some,
    ensures
        has_marker(aumid),
{
    text::lemma_contains_iff_last(aumid, SUFFIX_MARKER@);
}

/// The shared id of a group name is recognised as one, holds no suffix marker,
/// and is well within the length limit.
pub proof fn law_group_value(name: Seq<char>)
    requires
        group_name(name),
    ensures
        is_group(group_value(name)),
        !has_marker(group_value(name)),
        utf16::units(group_value(name)).len() == 10 + name.len(),
        utf16::units(group_value(name)).len() <= 42,
{
    reveal_strlit("TBG.Group.");
    reveal_strlit("~TBG~w");
    let v = group_value(name);
    assert(v.subrange(0, 10) =~= GROUP_PREFIX@);
    assert forall|i: int| 0 <= i < v.len() implies v[i] != '~' && (#[trigger] v[i] as u32)
        < 0x10000 by {
        if i >= 10 {
            assert(v[i] == name[i - 10]);
            assert(group_char(name[i - 10]));
        } else {
            assert(v[i] == GROUP_PREFIX@[i]);
        }
    }
    if has_marker(v) {
        let i = choose|i: int| text::occurs_at(v, SUFFIX_MARKER@, i);
        assert(v.subrange(i, i + 6)[0] == v[i]);
    }
    utf16::lemma_units_basic(v);
}

/// The suffix can be taken off exactly the ids that end in it, and what is left is what
/// stands before it.
pub proof fn law_strip_takes_the_suffix_off(aumid: Seq<char>, hwnd: usize, original: Seq<char>)
    ensures
        stripped(aumid, hwnd) == Some(original) <==> aumid == original + "~TBG~w"@ + num::hex(
            hwnd as nat,
        ),
{
    let m = SUFFIX_MARKER@;
    let d = num::hex(hwnd as nat);
    num::lemma_numeral(hwnd as nat, 16);
    if aumid == original + m + d {
        lemma_last_marker(original, d);
        assert(aumid.skip((original.len() + m.len()) as int) =~= d);
        assert(aumid.take(original.len() as int) =~= original);
    }
    if stripped(aumid, hwnd) == Some(original) {
        text::lemma_last_occurrence(aumid, m, aumid.len() as int);
        let p = text::last_occurrence(aumid, m)->0;
        assert(aumid =~= aumid.take(p) + aumid.subrange(p, p + m.len()) + aumid.skip(
            p + m.len(),
        ));
    }
}

/// An id is one of a group where it is the prefix with something behind it, and carries a
/// marker where the marker stands anywhere in it.
pub proof fn law_marks(aumid: Seq<char>)
    ensures
        is_group(aumid) <==> exists|name: Seq<char>|
            name.len() > 0 && aumid == #[trigger] ("TBG.Group."@ + name),
        has_marker(aumid) <==> exists|a: Seq<char>, b: Seq<char>|
            aumid == #[trigger] (a + "~TBG~w"@ + b),
{
    text::law_contains(aumid, SUFFIX_MARKER@);
    text::law_starts_with(aumid, GROUP_PREFIX@);
    if is_group(aumid) {
        let name = choose|r: Seq<char>| aumid == #[trigger] (GROUP_PREFIX@ + r);
        assert(name.len() > 0);
    }
}

/// A group name has one to thirty-two characters, each an ASCII letter or digit, a dot, an
/// underscore or a hyphen; its id is the prefix and the name.
pub proof fn law_group_names(name: Seq<char>)
    ensures
        group_name(name) <==> 1 <= name.len() <= 32 && forall|i: int|
            0 <= i < name.len() ==> {
                let c = #[trigger] name[i];
                ||| 'a' <= c && c <= 'z'
                ||| 'A' <= c && c <= 'Z'
                ||| '0' <= c && c <= '9'
                ||| c == '.'
                ||| c == '_'
                ||| c == '-'
            },
        group_value(name) == "TBG.Group."@ + name,
        group_name_error(name) == "invalid group name '"@ + name
            + "' (allowed: 1-32 chars of A-Z a-z 0-9 . _ -)"@,
{
    if group_name(name) {
        assert forall|i: int| 0 <= i < name.len() implies group_char(#[trigger] name[i]) by {}
    }
    if 1 <= name.len() <= 32 && (forall|i: int|
        0 <= i < name.len() ==> {
            let c = #[trigger] name[i];
            ||| 'a' <= c && c <= 'z'
            ||| 'A' <= c && c <= 'Z'
            ||| '0' <= c && c <= '9'
            ||| c == '.'
            ||| c == '_'
            ||| c == '-'
        }) {
        assert forall|i: int| 0 <= i < name.len() implies group_char(#[trigger] name[i]) by {
            let c = name[i];
        }
    }
}

/// An id given by the user is taken exactly where it is not empty, has no more than 129
/// code units and no character below U+0020; else it is said what is wrong, the length
/// first.
pub proof fn law_values(v: Seq<char>)
    ensures
        value_error(v) is None <==> 1 <= utf16::units(v).len() <= 129 && forall|i: int|
            0 <= i < v.len() ==> (#[trigger] v[i] as u32) >= 0x20,
        utf16::units(v).len() == 0 ==> value_error(v) == Some("value must not be empty"@),
        utf16::units(v).len() > 129 ==> value_error(v) == Some(
            "value too long ("@ + num::decimal(utf16::units(v).len()) + " UTF-16 units > limit "@
                + num::decimal(129) + ")"@,
        ),
        1 <= utf16::units(v).len() <= 129 && value_error(v) is Some ==> value_error(v) == Some(
            "value must not contain control characters (tab / newline / others < U+0020)"@,
        ),
{
}

/// A suffixed id is the original, the marker and the handle, where these have no more than
/// 129 code units. Else the original is cut to what there is room for, between two
/// characters; where the cut would part a pair of surrogates, U+FFFD takes its place.
pub proof fn law_suffixed(original: Seq<char>, hwnd: usize)
    ensures
        ({
            let mark = "~TBG~w"@ + num::hex(hwnd as nat);
            let room = 129 - mark.len();
            &&& fits(original, hwnd) <==> utf16::units(original).len() <= room
            &&& suffixed(original, hwnd) == head(original, hwnd) + mark
            &&& utf16::units(original).len() <= room ==> suffixed(original, hwnd) == original
                + mark
            &&& utf16::units(original).len() > room ==> exists|k: int|
                0 <= k < original.len() && {
                    let front = #[trigger] original.take(k);
                    ||| head(original, hwnd) == front && utf16::units(front).len() == room
                    ||| head(original, hwnd) == front.push('\u{FFFD}') && utf16::units(front).len()
                        == room - 1 && (original[k] as u32) >= 0x10000
                }
        }),
{
    let mark = "~TBG~w"@ + num::hex(hwnd as nat);
    lemma_room(hwnd);
    assert(suffixed(original, hwnd) =~= head(original, hwnd) + mark);
    if !fits(original, hwnd) {
        lemma_cut(original, room(hwnd));
    }
}

/// What is left of a text whose code units are cut.
proof fn lemma_cut(s: Seq<char>, n: int)
    requires
        0 <= n < utf16::units(s).len(),
    ensures
        exists|k: int|
            0 <= k < s.len() && {
                let front = #[trigger] s.take(k);
                ||| utf16::decoded(utf16::units(s).take(n)) == front && utf16::units(front).len()
                    == n
                ||| utf16::decoded(utf16::units(s).take(n)) == front.push('\u{FFFD}')
                    && utf16::units(front).len() == n - 1 && (s[k] as u32) >= 0x10000
            },
    decreases s.len(),
{
    let u = utf16::units(s);
    let none = Seq::<char>::empty();
    assert(utf16::units(none).len() == 0);
    if n == 0 {
        assert(u.take(0) =~= Seq::<u16>::empty());
        assert(s.take(0) =~= none);
        assert(utf16::decoded(u.take(0)) == s.take(0));
    } else {
        let c = s[0];
        let rest = s.skip(1);
        let cu = utf16::char_units(c);
        assert(u == cu + utf16::units(rest));
        if cu.len() <= n {
            let m = n - cu.len();
            lemma_cut(rest, m);
            let k = choose|k: int|
                0 <= k < rest.len() && {
                    let front = #[trigger] rest.take(k);
                    ||| utf16::decoded(utf16::units(rest).take(m)) == front && utf16::units(
                        front,
                    ).len() == m
                    ||| utf16::decoded(utf16::units(rest).take(m)) == front.push('\u{FFFD}')
                        && utf16::units(front).len() == m - 1 && (rest[k] as u32) >= 0x10000
                };
            assert(u.take(n) =~= cu + utf16::units(rest).take(m));
            utf16::lemma_decoded_front(c, utf16::units(rest).take(m));
            let front = rest.take(k);
            assert(s.take(k + 1) =~= seq![c] + front);
            assert(seq![c] + front.push('\u{FFFD}') =~= (seq![c] + front).push('\u{FFFD}'));
            utf16::law_units(c, front);
            assert(seq![c].skip(1) =~= none);
            assert(utf16::units(seq![c]) =~= cu);
            assert(s[k + 1] == rest[k]);
        } else {
            assert(n == 1 && cu.len() == 2);
            let one = u.take(1);
            assert(one =~= seq![cu[0]]);
            utf16::lemma_high_half(c);
            utf16::law_decoded(one);
            assert(one.skip(1) =~= Seq::<u16>::empty());
            assert(s.take(0) =~= none);
            assert(utf16::decoded(one) =~= s.take(0).push('\u{FFFD}'));
        }
    }
}

// ---------------------------------------------------------------------------
// Functions
// ---------------------------------------------------------------------------

/// Whether a character may stand in a group name.
fn is_group_char(c: char) -> (r: bool)
    ensures
        r == group_char(c),
{
    ('a' <= c && c <= 'z') || ('A' <= c && c <= 'Z') || ('0' <= c && c <= '9') || c == '.' || c
        == '_' || c == '-'
}

/// The shared id of a group, for a valid group name.
pub fn group_aumid(name: &str) -> (r: Result<String, String>)
    ensures
        match r {
            Ok(v) => group_name(name@) && v@ == group_value(name@),
            Err(e) => !group_name(name@) && e@ == group_name_error(name@),
        },
{
    let v: Vec<char> = text::chars_of(name);
    let mut ok: bool = 1 <= v.len() && v.len() <= 32;
    let mut i: usize = 0;
    while ok && i < v.len()
        invariant
            v@ == name@,
            i <= v@.len(),
            ok ==> 1 <= v@.len() <= 32,
            ok ==> forall|j: int| 0 <= j < i ==> group_char(#[trigger] v@[j]),
            !ok ==> !group_name(name@),
        decreases v@.len() - i,
    {
        ok = is_group_char(v[i]);
        i += 1;
    }
    if ok {
        let mut r: String = GROUP_PREFIX.to_owned();
        r.push_str(name);
        Ok(r)
    } else {
        let mut e: String = "invalid group name '".to_owned();
        e.push_str(name);
        e.push_str("' (allowed: 1-32 chars of A-Z a-z 0-9 . _ -)");
        Err(e)
    }
}

/// Whether an id is a shared group id.
pub fn is_group_aumid(aumid: &str) -> (r: bool)
    ensures
        r == is_group(aumid@),
{
    text::has_prefix(aumid, GROUP_PREFIX) && text::chars_of(aumid).len() > text::chars_of(
        GROUP_PREFIX,
    ).len()
}

/// Checks an id given by the user.
pub fn validate_aumid_value(v: &str) -> (r: Result<(), String>)
    ensures
        match r {
            Ok(()) => value_error(v@) is None,
            Err(e) => value_error(v@) == Some(e@),
        },
{
    let n: usize = utf16::encode(v).len();
    if n == 0 {
        return Err("value must not be empty".to_owned());
    }
    if n > AUMID_MAX_LEN {
        let mut e: String = "value too long (".to_owned();
        e.push_str(num::decimal_text(n as u64).as_str());
        e.push_str(" UTF-16 units > limit ");
        e.push_str(num::decimal_text(AUMID_MAX_LEN as u64).as_str());
        e.push_str(")");
        return Err(e);
    }
    let c: Vec<char> = text::chars_of(v);
    let mut i: usize = 0;
    while i < c.len()
        invariant
            c@ == v@,
            0 < utf16::units(v@).len() <= AUMID_MAX_LEN,
            i <= c@.len(),
            forall|j: int| 0 <= j < i ==> (#[trigger] c@[j] as u32) >= 0x20,
        decreases c@.len() - i,
    {
        if (c[i] as u32) < 0x20 {
            return Err(
                "value must not contain control characters (tab / newline / others < U+0020)".to_owned(),
            );
        }
        i += 1;
    }
    Ok(())
}

/// An original with the suffix of a window. Where the two are longer than the
/// limit together, the original is cut and the suffix kept whole.
pub fn suffixed_aumid(original: &str, hwnd: usize) -> (r: SuffixedAumid)
    ensures
        r.value@ == suffixed(original@, hwnd),
        r.truncated == !fits(original@, hwnd),
{
    proof {
        lemma_room(hwnd);
    }
    let digits: String = num::hex_text(hwnd);
    let used: usize = text::chars_of(SUFFIX_MARKER).len() + text::chars_of(digits.as_str()).len();
    let keep: usize = AUMID_MAX_LEN - used;
    let u: Vec<u16> = utf16::encode(original);
    let truncated: bool = u.len() > keep;
    let mut value: String = if truncated {
        utf16::decode(u.as_slice(), keep)
    } else {
        original.to_owned()
    };
    value.push_str(SUFFIX_MARKER);
    value.push_str(digits.as_str());
    SuffixedAumid { value, truncated }
}

/// What stands before the suffix of a window; an empty text means that the window
/// had no id of its own.
pub fn strip_suffix<'a>(aumid: &'a str, hwnd: usize) -> (r: Option<&'a str>)
    ensures
        match r {
            Some(t) => stripped(aumid@, hwnd) == Some(t@),
            None => stripped(aumid@, hwnd) is None,
        },
{
    let s: Vec<char> = text::chars_of(aumid);
    let m: Vec<char> = text::chars_of(SUFFIX_MARKER);
    let n: usize = s.len();
    proof {
        text::lemma_last_occurrence(s@, m@, s@.len() as int);
    }
    match text::find_last(s.as_slice(), m.as_slice()) {
        Some(p) => {
            let tail: Vec<char> = text::copy_range(s.as_slice(), p + m.len(), n);
            if text::is_text(tail.as_slice(), num::hex_text(hwnd).as_str()) {
                Some(aumid.substring_char(0, p))
            } else {
                None
            }
        },
        None => None,
    }
}

} // verus!
