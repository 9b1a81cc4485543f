//! UTF-16: the code units of a text, and the text of a sequence of code units.

use vstd::prelude::*;

use crate::text;

verus! {

/// `char::from_u32`: the character with the given scalar value; `None` exactly
/// for surrogates and for values beyond U+10FFFF.
pub assume_specification[ char::from_u32 ](i: u32) -> (r: Option<char>)
    ensures
        r is Some <==> (i < 0xD800 || 0xDFFF < i <= 0x10FFFF),
        r matches Some(c) ==> c == i as char,
;

// ---------------------------------------------------------------------------
// Models
// ---------------------------------------------------------------------------

/// The code units of one character: one unit, or a surrogate pair beyond U+FFFF.
pub open spec fn char_units(c: char) -> Seq<u16> {
    if (c as u32) < 0x10000 {
        seq![c as u32 as u16]
    } else {
        seq![
            (0xD800 + (c as u32 - 0x10000) / 0x400) as u16,
            (0xDC00 + (c as u32 - 0x10000) % 0x400) as u16,
        ]
    }
}

/// The code units of a text.
pub open spec fn units(s: Seq<char>) -> Seq<u16>
    decreases s.len(),
{
    if s.len() == 0 {
        Seq::empty()
    } else {
        char_units(s[0]) + units(s.skip(1))
    }
}

/// Whether a code unit opens a surrogate pair.
pub open spec fn high_surrogate(u: u16) -> bool {
    0xD800 <= u <= 0xDBFF
}

/// Whether a code unit closes a surrogate pair.
pub open spec fn low_surrogate(u: u16) -> bool {
    0xDC00 <= u <= 0xDFFF
}

/// The character of a surrogate pair.
pub open spec fn paired(high: u16, low: u16) -> char {
    ((0x10000 + (high - 0xD800) * 0x400 + (low - 0xDC00)) as u32) as char
}

/// The text of a sequence of code units; each surrogate without its other half
/// becomes U+FFFD.
pub open spec fn decoded(u: Seq<u16>) -> Seq<char>
    decreases u.len(),
{
    if u.len() == 0 {
        Seq::empty()
    } else if high_surrogate(u[0]) && u.len() > 1 && low_surrogate(u[1]) {
        seq![paired(u[0], u[1])] + decoded(u.skip(2))
    } else if high_surrogate(u[0]) || low_surrogate(u[0]) {
        seq!['\u{FFFD}'] + decoded(u.skip(1))
    } else {
        seq![(u[0] as u32) as char] + decoded(u.skip(1))
    }
}

// ---------------------------------------------------------------------------
// Facts
// ---------------------------------------------------------------------------

/// The first code unit of a character beyond U+FFFF is a high surrogate.
pub proof fn lemma_high_half(c: char)
    requires
        (c as u32) >= 0x10000,
    ensures
        char_units(c).len() == 2,
        0xD800 <= char_units(c)[0] < 0xDC00,
{
    let v = c as u32 - 0x10000;
    assert(0 <= v < 0x100000);
    assert(0 <= v / 0x400 < 0x400);
}

/// Decoding takes the units of a character off the front.
pub proof fn lemma_decoded_front(c: char, u: Seq<u16>)
    ensures
        decoded(char_units(c) + u) == seq![c] + decoded(u),
{
    let all = char_units(c) + u;
    let x = c as u32;
    if x < 0x10000 {
        assert(all.skip(1) =~= u);
        assert(all[0] == x as u16);
        assert(x < 0xD800 || x > 0xDFFF);
    } else {
        assert(all.skip(2) =~= u);
        let v = (x - 0x10000) as int;
        assert(0 <= v < 0x100000);
        assert(0 <= v / 0x400 < 0x400 && 0 <= v % 0x400 < 0x400 && (v / 0x400) * 0x400 + v % 0x400
            == v);
        assert(all[0] == (0xD800 + v / 0x400) as u16);
        assert(all[1] == (0xDC00 + v % 0x400) as u16);
        assert(paired(all[0], all[1]) == c);
    }
}

/// Decoding the code units of a text gives the text back.
pub proof fn lemma_units_round_trip(s: Seq<char>)
    ensures
        decoded(units(s)) == s,
    decreases s.len(),
{
    if s.len() > 0 {
        lemma_units_round_trip(s.skip(1));
        lemma_decoded_front(s[0], units(s.skip(1)));
        assert(seq![s[0]] + s.skip(1) =~= s);
    }
}

/// The code units of two texts in a row are those of the first and those of the
/// second.
pub proof fn lemma_units_concat(a: Seq<char>, b: Seq<char>)
    ensures
        units(a + b) == units(a) + units(b),
    decreases a.len(),
{
    if a.len() == 0 {
        assert(a + b =~= b);
        assert(units(a) + units(b) =~= units(b));
    } else {
        lemma_units_concat(a.skip(1), b);
        assert((a + b).skip(1) =~= a.skip(1) + b);
        assert(char_units(a[0]) + (units(a.skip(1)) + units(b)) =~= char_units(a[0]) + units(
            a.skip(1),
        ) + units(b));
    }
}

/// A text of characters up to U+FFFF has one code unit for each character.
pub proof fn lemma_units_basic(s: Seq<char>)
    requires
        forall|i: int| 0 <= i < s.len() ==> (#[trigger] s[i] as u32) < 0x10000,
    ensures
        units(s).len() == s.len(),
    decreases s.len(),
{
    if s.len() > 0 {
        assert((s[0] as u32) < 0x10000);
        assert forall|i: int| 0 <= i < s.skip(1).len() implies (#[trigger] s.skip(1)[i] as u32)
            < 0x10000 by {
            assert(s.skip(1)[i] == s[i + 1]);
        }
        lemma_units_basic(s.skip(1));
    }
}

/// Decoding keeps the number of code units, whatever they were.
pub proof fn lemma_decoded_units_len(u: Seq<u16>)
    ensures
        units(decoded(u)).len() == u.len(),
    decreases u.len(),
{
    if u.len() > 0 {
        let d = decoded(u);
        if high_surrogate(u[0]) && u.len() > 1 && low_surrogate(u[1]) {
            lemma_decoded_units_len(u.skip(2));
            assert(d.skip(1) =~= decoded(u.skip(2)));
            let c = paired(u[0], u[1]);
            assert(c as u32 >= 0x10000);
        } else {
            lemma_decoded_units_len(u.skip(1));
            assert(d.skip(1) =~= decoded(u.skip(1)));
            assert((d[0] as u32) < 0x10000);
        }
    }
}

// ---------------------------------------------------------------------------
// Laws
// ---------------------------------------------------------------------------

/// The code units of a text are those of its characters in a row: a character up to U+FFFF
/// is one code unit of its own number, another one a pair of a high and a low surrogate
/// that hold its number.
pub proof fn law_units(c: char, s: Seq<char>)
    ensures
        units(Seq::empty()).len() == 0,
        units(seq![c] + s) == units(seq![c]) + units(s),
        (c as u32) < 0x10000 ==> units(seq![c]).len() == 1 && units(seq![c])[0] == c as u32,
        (c as u32) >= 0x10000 ==> {
            let u = units(seq![c]);
            &&& u.len() == 2
            &&& 0xD800 <= u[0] < 0xDC00
            &&& 0xDC00 <= u[1] < 0xE000
            &&& 0x10000 + (u[0] - 0xD800) * 0x400 + (u[1] - 0xDC00) == c as u32
        },
{
    lemma_units_concat(seq![c], s);
    assert(seq![c].skip(1) =~= Seq::<char>::empty());
    assert(units(Seq::<char>::empty()) =~= Seq::<u16>::empty());
    assert(char_units(c) + Seq::<u16>::empty() =~= char_units(c));
    assert(units(seq![c]) == char_units(c));
    let v = c as u32 - 0x10000;
    if v >= 0 {
        assert(v < 0x100000);
        assert(0 <= v / 0x400 < 0x400 && 0 <= v % 0x400 < 0x400);
    }
}

/// The text of code units: a pair of surrogates is one character, another code unit is one
/// of its own number, and a surrogate that has no other half gives U+FFFD.
pub proof fn law_decoded(u: Seq<u16>)
    ensures
        decoded(Seq::empty()).len() == 0,
        u.len() > 0 && !(0xD800 <= u[0] < 0xE000) ==> {
            &&& decoded(u).len() > 0
            &&& decoded(u)[0] as u32 == u[0]
            &&& decoded(u).skip(1) == decoded(u.skip(1))
        },
        u.len() > 1 && 0xD800 <= u[0] < 0xDC00 && 0xDC00 <= u[1] < 0xE000 ==> {
            &&& decoded(u).len() > 0
            &&& decoded(u)[0] as u32 == 0x10000 + (u[0] - 0xD800) * 0x400 + (u[1] - 0xDC00)
            &&& decoded(u).skip(1) == decoded(u.skip(2))
        },
        u.len() > 0 && 0xD800 <= u[0] < 0xE000 && (u[0] >= 0xDC00 || u.len() == 1 || !(0xDC00
            <= u[1] < 0xE000)) ==> decoded(u) == seq!['\u{FFFD}'] + decoded(u.skip(1)),
{
    if u.len() > 0 {
        assert(decoded(u).skip(1) =~= decoded(
            u.skip(
                if u.len() > 1 && high_surrogate(u[0]) && low_surrogate(u[1]) {
                    2
                } else {
                    1
                },
            ),
        ));
    }
}

// ---------------------------------------------------------------------------
// Functions
// ---------------------------------------------------------------------------

/// Appends the code units of one character.
fn push_units(r: &mut Vec<u16>, c: char)
    ensures
        final(r)@ == old(r)@ + char_units(c),
{
    let x: u32 = c as u32;
    if x < 0x10000 {
        r.push(x as u16);
        assert(r@ =~= old(r)@ + char_units(c));
    } else {
        let v: u32 = x - 0x10000;
        r.push((0xD800 + v / 0x400) as u16);
        r.push((0xDC00 + v % 0x400) as u16);
        assert(r@ =~= old(r)@ + char_units(c));
    }
}

/// The code units of a text.
pub fn encode(s: &str) -> (r: Vec<u16>)
    ensures
        r@ == units(s@),
{
    let v: Vec<char> = text::chars_of(s);
    let mut r: Vec<u16> = Vec::new();
    let mut i: usize = 0;
    assert(s@.skip(0) =~= s@);
    assert(r@ + units(s@) =~= units(s@));
    while i < v.len()
        invariant
            v@ == s@,
            i <= v@.len(),
            r@ + units(s@.skip(i as int)) == units(s@),
        decreases v@.len() - i,
    {
        proof {
            let t = s@.skip(i as int);
            assert(t.skip(1) =~= s@.skip(i + 1));
            assert(t[0] == s@[i as int]);
            assert(r@ + (char_units(t[0]) + units(t.skip(1))) =~= r@ + char_units(t[0]) + units(
                t.skip(1),
            ));
        }
        push_units(&mut r, v[i]);
        i += 1;
    }
    assert(s@.skip(i as int) =~= Seq::<char>::empty());
    assert(r@ + Seq::<u16>::empty() =~= r@);
    r
}

/// The text of the first `end` code units.
pub fn decode(u: &[u16], end: usize) -> (r: String)
    requires
        end <= u@.len(),
    ensures
        r@ == decoded(u@.take(end as int)),
{
    let ghost all = u@.take(end as int);
    let mut r: String = String::new();
    let mut i: usize = 0;
    assert(all.skip(0) =~= all);
    assert(r@ + decoded(all) =~= decoded(all));
    while i < end
        invariant
            all == u@.take(end as int),
            i <= end <= u@.len(),
            r@ + decoded(all.skip(i as int)) == decoded(all),
        decreases end - i,
    {
        let ghost was = r@;
        let ghost t = all.skip(i as int);
        let a: u16 = u[i];
        assert(t[0] == a);
        if 0xD800 <= a && a <= 0xDBFF && i + 1 < end && 0xDC00 <= u[i + 1] && u[i + 1] <= 0xDFFF {
            let b: u16 = u[i + 1];
            assert(t[1] == b);
            assert(t.skip(2) =~= all.skip(i + 2));
            let x: u32 = 0x10000 + (a as u32 - 0xD800) * 0x400 + (b as u32 - 0xDC00);
            if let Some(c) = char::from_u32(x) {
                r.push(c);
                assert(r@ + decoded(t.skip(2)) =~= was + (seq![paired(a, b)] + decoded(t.skip(2))));
            }
            i += 2;
        } else if 0xD800 <= a && a <= 0xDFFF {
            assert(t.skip(1) =~= all.skip(i + 1));
            r.push('\u{FFFD}');
            assert(r@ + decoded(t.skip(1)) =~= was + (seq!['\u{FFFD}'] + decoded(t.skip(1))));
            i += 1;
        } else {
            assert(t.skip(1) =~= all.skip(i + 1));
            if let Some(c) = char::from_u32(a as u32) {
                r.push(c);
                assert(r@ + decoded(t.skip(1)) =~= was + (seq![(a as u32) as char] + decoded(
                    t.skip(1),
                )));
            }
            i += 1;
        }
    }
    assert(all.skip(i as int) =~= Seq::<u16>::empty());
    assert(r@ + Seq::<char>::empty() =~= r@);
    r
}

} // verus!
