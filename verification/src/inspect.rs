//! Windows on paper: the table, the details of one window, and JSON.

use vstd::prelude::*;

use crate::appid;
use crate::num;
use crate::text;
use crate::watchlog;
use crate::winutil;
use crate::winutil::WindowFacts;

verus! {

// ---------------------------------------------------------------------------
// Models
// ---------------------------------------------------------------------------

/// A hexadecimal digit in lower case.
pub open spec fn lower_digit(d: nat) -> char {
    if d < 10 {
        (48 + d) as char
    } else {
        (87 + d) as char
    }
}

/// A character inside a JSON string.
pub open spec fn escaped_char(c: char) -> Seq<char> {
    if c == '"' {
        seq!['\\', '"']
    } else if c == '\\' {
        seq!['\\', '\\']
    } else if c == '\n' {
        seq!['\\', 'n']
    } else if c == '\r' {
        seq!['\\', 'r']
    } else if c == '\t' {
        seq!['\\', 't']
    } else if (c as u32) < 0x20 {
        seq![
            '\\',
            'u',
            '0',
            '0',
            lower_digit((c as u32 / 16) as nat),
            lower_digit((c as u32 % 16) as nat),
        ]
    } else {
        seq![c]
    }
}

/// A text inside a JSON string.
pub open spec fn escaped(s: Seq<char>) -> Seq<char>
    decreases s.len(),
{
    if s.len() == 0 {
        Seq::empty()
    } else {
        escaped_char(s[0]) + escaped(s.skip(1))
    }
}

/// The value of a lower-case hexadecimal digit.
pub open spec fn lower_value(c: char) -> nat {
    if '0' <= c && c <= '9' {
        (c as u32 - 48) as nat
    } else {
        (c as u32 - 87) as nat
    }
}

/// How many characters the first escape of a JSON string takes, and which
/// character it stands for.
pub open spec fn first_escape(s: Seq<char>) -> (int, char) {
    if s[0] != '\\' {
        (1, s[0])
    } else if s[1] == 'n' {
        (2, '\n')
    } else if s[1] == 'r' {
        (2, '\r')
    } else if s[1] == 't' {
        (2, '\t')
    } else if s[1] == 'u' {
        (
            6,
            (lower_value(s[2]) * 4096 + lower_value(s[3]) * 256 + lower_value(s[4]) * 16
                + lower_value(s[5])) as char,
        )
    } else {
        (2, s[1])
    }
}

/// The text that a JSON string holds.
pub open spec fn unescaped(s: Seq<char>) -> Seq<char>
    decreases s.len(),
{
    if s.len() == 0 {
        Seq::empty()
    } else {
        let (n, c) = first_escape(s);
        seq![c] + (if n <= s.len() {
            unescaped(s.skip(n))
        } else {
            Seq::empty()
        })
    }
}

/// A JSON object of one window. `aumid` is the id as JSON.
pub open spec fn json_object(
    key: usize,
    f: WindowFacts,
    aumid: Seq<char>,
    suffixed: bool,
    grouped: bool,
) -> Seq<char> {
    "{\"hwnd\":\"0x"@ + num::hex(key as nat) + "\",\"pid\":"@ + num::decimal(f.pid as nat)
        + ",\"class\":\""@ + escaped(f.class@) + "\",\"title\":\""@ + escaped(f.title@)
        + "\",\"aumid\":"@ + aumid + ",\"suffixed\":"@ + watchlog::truth(suffixed) + ",\"grouped\":"@
        + watchlog::truth(grouped) + "}"@
}

/// A text as a JSON string.
pub open spec fn json_string(s: Seq<char>) -> Seq<char> {
    "\""@ + escaped(s) + "\""@
}

/// The JSON object of a window in a list; an id that cannot be read is null.
pub open spec fn json_row(key: usize, f: WindowFacts) -> Seq<char> {
    match f.aumid {
        Ok(a) => json_object(key, f, json_string(a@), appid::has_marker(a@), appid::is_group(a@)),
        Err(_) => json_object(key, f, "null"@, false, false),
    }
}

/// A line of the table.
pub open spec fn table_line(
    hwnd: Seq<char>,
    pid: Seq<char>,
    class: Seq<char>,
    aumid: Seq<char>,
    title: Seq<char>,
) -> Seq<char> {
    text::padded(hwnd, 18) + " "@ + text::padded(pid, 7) + " "@ + text::padded(class, 26) + " "@
        + text::padded(aumid, 30) + " "@ + title
}

/// The line of a window in the table.
pub open spec fn table_row(key: usize, f: WindowFacts) -> Seq<char> {
    table_line(
        "0x"@ + num::hex(key as nat),
        num::decimal(f.pid as nat),
        text::clipped(f.class@, 26),
        text::clipped(
            match f.aumid {
                Ok(a) => a@,
                Err(_) => "<unreadable>"@,
            },
            30,
        ),
        f.title@,
    )
}

/// What is said of a window whose id cannot be read.
pub open spec fn unreadable(key: usize, e: Seq<char>) -> Seq<char> {
    "inspect 0x"@ + num::hex(key as nat) + ": read AUMID failed: "@ + e
}

/// The details of one window, whose id is `a`.
pub open spec fn details(key: usize, f: WindowFacts, a: Seq<char>, json: bool) -> Seq<Seq<char>> {
    let suffixed = appid::stripped(a, key) is Some;
    let grouped = appid::is_group(a);
    if json {
        seq![json_object(key, f, json_string(a), suffixed, grouped)]
    } else {
        seq![
            "HWND     : 0x"@ + num::hex(key as nat),
            "PID      : "@ + num::decimal(f.pid as nat),
            "Class    : "@ + f.class@,
            "Title    : "@ + f.title@,
            "AUMID    : "@ + winutil::shown(a),
            "Suffixed : "@ + watchlog::truth(suffixed),
            "Grouped  : "@ + watchlog::truth(grouped),
        ]
    }
}

/// The JSON objects of windows in a list.
pub open spec fn json_rows(ws: Seq<(usize, WindowFacts)>, all: bool) -> Seq<Seq<char>>
    decreases ws.len(),
{
    if ws.len() == 0 {
        Seq::empty()
    } else {
        let before = json_rows(ws.drop_last(), all);
        let w = ws.last();
        if all || w.1.app_window() {
            before.push(json_row(w.0, w.1))
        } else {
            before
        }
    }
}

/// The table of windows, with its heading.
pub open spec fn table(ws: Seq<(usize, WindowFacts)>, all: bool) -> Seq<Seq<char>>
    decreases ws.len(),
{
    if ws.len() == 0 {
        seq![table_line("HWND"@, "PID"@, "CLASS"@, "AUMID"@, "TITLE"@)]
    } else {
        let before = table(ws.drop_last(), all);
        let w = ws.last();
        if all || w.1.app_window() {
            before.push(table_row(w.0, w.1))
        } else {
            before
        }
    }
}

// ---------------------------------------------------------------------------
// Laws
// ---------------------------------------------------------------------------

/// One character and its escape.
proof fn lemma_escape_char(c: char, rest: Seq<char>)
    ensures
        escaped_char(c).len() > 0,
        first_escape(escaped_char(c) + rest) == (escaped_char(c).len() as int, c),
{
    let e = escaped_char(c);
    let s = e + rest;
    assert(forall|i: int| 0 <= i < e.len() ==> s[i] == e[i]);
    if (c as u32) < 0x20 {
        let hi = (c as u32 / 16) as nat;
        let lo = (c as u32 % 16) as nat;
        assert(hi < 16 && lo < 16);
        assert(lower_value(lower_digit(hi)) == hi);
        assert(lower_value(lower_digit(lo)) == lo);
        assert(hi * 16 + lo == c as u32);
    }
}

/// A text survives its way through a JSON string.
pub proof fn law_json_round_trip(s: Seq<char>)
    ensures
        unescaped(escaped(s)) == s,
    decreases s.len(),
{
    if s.len() > 0 {
        let rest = escaped(s.skip(1));
        lemma_escape_char(s[0], rest);
        law_json_round_trip(s.skip(1));
        let e = escaped_char(s[0]);
        assert((e + rest).skip(e.len() as int) =~= rest);
        assert(seq![s[0]] + s.skip(1) =~= s);
    }
}

/// Inside a JSON string there is no control character, and each quote stands behind
/// a backslash.
pub proof fn law_json_is_safe(s: Seq<char>)
    ensures
        forall|i: int|
            0 <= i < escaped(s).len() ==> (#[trigger] escaped(s)[i] as u32) >= 0x20 && (escaped(
                s,
            )[i] == '"' ==> i > 0 && escaped(s)[i - 1] == '\\'),
    decreases s.len(),
{
    if s.len() > 0 {
        let e = escaped_char(s[0]);
        let rest = escaped(s.skip(1));
        lemma_escape_is_safe(s[0]);
        law_json_is_safe(s.skip(1));
        assert forall|i: int| 0 <= i < (e + rest).len() implies (#[trigger] (e + rest)[i] as u32)
            >= 0x20 && ((e + rest)[i] == '"' ==> i > 0 && (e + rest)[i - 1] == '\\') by {
            if i < e.len() {
                assert((e + rest)[i] == e[i]);
                if i > 0 {
                    assert((e + rest)[i - 1] == e[i - 1]);
                }
            } else {
                assert((e + rest)[i] == rest[i - e.len()]);
                if i > e.len() {
                    assert((e + rest)[i - 1] == rest[i - e.len() - 1]);
                }
            }
        }
    }
}

/// The same of one character.
proof fn lemma_escape_is_safe(c: char)
    ensures
        forall|i: int|
            0 <= i < escaped_char(c).len() ==> (#[trigger] escaped_char(c)[i] as u32) >= 0x20 && (
            escaped_char(c)[i] == '"' ==> i > 0 && escaped_char(c)[i - 1] == '\\'),
{
}

/// A text is written into a JSON string character by character: quotes, backslashes, line
/// feeds, carriage returns and tabs behind a backslash, other control characters by their
/// number, and all others as they are.
pub proof fn law_json_escapes(a: Seq<char>, b: Seq<char>, c: char)
    ensures
        escaped(Seq::empty()) == Seq::<char>::empty(),
        escaped(a + b) == escaped(a) + escaped(b),
        escaped(seq!['"']) == seq!['\\', '"'],
        escaped(seq!['\\']) == seq!['\\', '\\'],
        escaped(seq!['\n']) == seq!['\\', 'n'],
        escaped(seq!['\r']) == seq!['\\', 'r'],
        escaped(seq!['\t']) == seq!['\\', 't'],
        (c as u32) >= 0x20 && c != '"' && c != '\\' ==> escaped(seq![c]) == seq![c],
        (c as u32) < 0x20 && c != '\n' && c != '\r' && c != '\t' ==> ({
            let e = escaped(seq![c]);
            let low = (c as u32) % 16;
            &&& e.len() == 6
            &&& e.take(4) == seq!['\\', 'u', '0', '0']
            &&& e[4] == (if (c as u32) < 0x10 {
                '0'
            } else {
                '1'
            })
            &&& low < 10 ==> e[5] as u32 == '0' as u32 + low
            &&& low >= 10 ==> e[5] as u32 == 'a' as u32 + (low - 10)
        }),
    decreases a.len(),
{
    assert forall|x: char| #[trigger] escaped(seq![x]) == escaped_char(x) by {
        assert(seq![x].skip(1) =~= Seq::<char>::empty());
        assert(escaped(seq![x].skip(1)) =~= Seq::<char>::empty());
        assert(escaped_char(x) + Seq::<char>::empty() =~= escaped_char(x));
    }
    if a.len() == 0 {
        assert(a + b =~= b);
        assert(escaped(a) + escaped(b) =~= escaped(b));
    } else {
        law_json_escapes(a.skip(1), b, c);
        assert((a + b).skip(1) =~= a.skip(1) + b);
        assert((a + b)[0] == a[0]);
        assert(escaped_char(a[0]) + (escaped(a.skip(1)) + escaped(b)) =~= escaped_char(a[0])
            + escaped(a.skip(1)) + escaped(b));
    }
    if (c as u32) < 0x20 && c != '\n' && c != '\r' && c != '\t' {
        let e = escaped(seq![c]);
        assert(e == escaped_char(c));
        assert(e.take(4) =~= seq!['\\', 'u', '0', '0']);
    }
}

/// Windows are listed one by one, in their order: all of them where that is asked for, and
/// else the application windows. The table begins with its heading.
pub proof fn law_windows_are_listed(
    a: Seq<(usize, WindowFacts)>,
    b: Seq<(usize, WindowFacts)>,
    key: usize,
    f: WindowFacts,
    all: bool,
)
    ensures
        ({
            let w = seq![(key, f)];
            let head = table(Seq::empty(), all);
            &&& json_rows(Seq::empty(), all).len() == 0
            &&& json_rows(a + b, all) == json_rows(a, all) + json_rows(b, all)
            &&& head == seq![
                text::padded("HWND"@, 18) + " "@ + text::padded("PID"@, 7) + " "@ + text::padded(
                    "CLASS"@,
                    26,
                ) + " "@ + text::padded("AUMID"@, 30) + " "@ + "TITLE"@,
            ]
            &&& table(a + b, all) == table(a, all) + table(b, all).skip(1)
            &&& all || f.app_window() ==> json_rows(w, all) == seq![json_row(key, f)] && table(w, all)
                == head + seq![table_row(key, f)]
            &&& !all && !f.app_window() ==> json_rows(w, all).len() == 0 && table(w, all) == head
        }),
    decreases b.len(),
{
    let none = Seq::<(usize, WindowFacts)>::empty();
    let w = seq![(key, f)];
    assert(w.drop_last() =~= none);
    assert(w.last() == (key, f));
    assert(json_rows(none, all) =~= Seq::<Seq<char>>::empty());
    let head = table(none, all);
    assert(head.push(table_row(key, f)) =~= head + seq![table_row(key, f)]);
    if b.len() == 0 {
        assert(a + b =~= a);
        assert(json_rows(a, all) + json_rows(b, all) =~= json_rows(a, all));
        assert(table(a, all) + table(b, all).skip(1) =~= table(a, all));
    } else {
        law_windows_are_listed(a, b.drop_last(), key, f, all);
        lemma_table_has_heading(b.drop_last(), all);
        assert((a + b).drop_last() =~= a + b.drop_last());
        assert((a + b).last() == b.last());
        assert(json_rows(a + b, all) =~= json_rows(a, all) + json_rows(b, all));
        assert(table(a + b, all) =~= table(a, all) + table(b, all).skip(1));
    }
}

/// The table is never empty.
proof fn lemma_table_has_heading(ws: Seq<(usize, WindowFacts)>, all: bool)
    ensures
        table(ws, all).len() > 0,
    decreases ws.len(),
{
    if ws.len() > 0 {
        lemma_table_has_heading(ws.drop_last(), all);
    }
}

/// What a window is on paper: in a list of JSON objects and in the table. An id that cannot be
/// read is null there, and said to be unreadable here.
pub proof fn law_rows(key: usize, f: WindowFacts, a: String, e: String)
    ensures
        ({
            let object = |id: Seq<char>, suffixed: Seq<char>, grouped: Seq<char>| "{\"hwnd\":\"0x"@
                + num::hex(key as nat) + "\",\"pid\":"@ + num::decimal(f.pid as nat)
                + ",\"class\":\""@ + escaped(f.class@) + "\",\"title\":\""@ + escaped(f.title@)
                + "\",\"aumid\":"@ + id + ",\"suffixed\":"@ + suffixed + ",\"grouped\":"@ + grouped
                + "}"@;
            let row = |id: Seq<char>| text::padded("0x"@ + num::hex(key as nat), 18) + " "@
                + text::padded(num::decimal(f.pid as nat), 7) + " "@ + text::padded(
                text::clipped(f.class@, 26),
                26,
            ) + " "@ + text::padded(text::clipped(id, 30), 30) + " "@ + f.title@;
            let said = |b: bool| if b {
                "true"@
            } else {
                "false"@
            };
            &&& f.aumid == Ok::<String, String>(a) ==> json_row(key, f) == object(
                "\""@ + escaped(a@) + "\""@,
                said(appid::has_marker(a@)),
                said(appid::is_group(a@)),
            ) && table_row(key, f) == row(a@)
            &&& f.aumid == Err::<String, String>(e) ==> json_row(key, f) == object(
                "null"@,
                "false"@,
                "false"@,
            ) && table_row(key, f) == row("<unreadable>"@)
            &&& details(key, f, a@, true) == seq![
                object(
                    "\""@ + escaped(a@) + "\""@,
                    said(appid::stripped(a@, key) is Some),
                    said(appid::is_group(a@)),
                ),
            ]
            &&& details(key, f, a@, false) == seq![
                "HWND     : 0x"@ + num::hex(key as nat),
                "PID      : "@ + num::decimal(f.pid as nat),
                "Class    : "@ + f.class@,
                "Title    : "@ + f.title@,
                "AUMID    : "@ + winutil::shown(a@),
                "Suffixed : "@ + said(appid::stripped(a@, key) is Some),
                "Grouped  : "@ + said(appid::is_group(a@)),
            ]
            &&& unreadable(key, e@) == "inspect 0x"@ + num::hex(key as nat)
                + ": read AUMID failed: "@ + e@
        }),
{
}

// ---------------------------------------------------------------------------
// Functions
// ---------------------------------------------------------------------------

/// The first `max` characters of a text; where some are left out, a tilde takes
/// the place of the last.
pub fn truncate(s: &str, max: usize) -> (r: String)
    ensures
        r@ == text::clipped(s@, max as nat),
{
    text::clip_text(s, max)
}

/// A hexadecimal digit in lower case.
fn digit_of(d: u32) -> (c: char)
    requires
        d < 16,
    ensures
        c == lower_digit(d as nat),
{
    let code: u8 = if d < 10 {
        48 + d as u8
    } else {
        87 + d as u8
    };
    code as char
}

/// A text inside a JSON string.
pub fn json_escape(s: &str) -> (r: String)
    ensures
        r@ == escaped(s@),
{
    let v: Vec<char> = text::chars_of(s);
    let mut r: String = String::new();
    let mut i: usize = 0;
    assert(s@.skip(0) =~= s@);
    assert(r@ + escaped(s@) =~= escaped(s@));
    while i < v.len()
        invariant
            v@ == s@,
            i <= v@.len(),
            r@ + escaped(s@.skip(i as int)) == escaped(s@),
        decreases v@.len() - i,
    {
        let c: char = v[i];
        let ghost was = r@;
        let ghost rest = s@.skip(i as int);
        if c == '"' {
            r.push('\\');
            r.push('"');
        } else if c == '\\' {
            r.push('\\');
            r.push('\\');
        } else if c == '\n' {
            r.push('\\');
            r.push('n');
        } else if c == '\r' {
            r.push('\\');
            r.push('r');
        } else if c == '\t' {
            r.push('\\');
            r.push('t');
        } else if (c as u32) < 0x20 {
            r.push('\\');
            r.push('u');
            r.push('0');
            r.push('0');
            r.push(digit_of(c as u32 / 16));
            r.push(digit_of(c as u32 % 16));
        } else {
            r.push(c);
        }
        proof {
            assert(r@ =~= was + escaped_char(c));
            assert(rest[0] == c);
            assert(rest.skip(1) =~= s@.skip(i + 1));
            assert(was + (escaped_char(c) + escaped(s@.skip(i + 1))) =~= r@ + escaped(
                s@.skip(i + 1),
            ));
        }
        i += 1;
    }
    assert(s@.skip(i as int) =~= Seq::<char>::empty());
    assert(r@ + Seq::<char>::empty() =~= r@);
    r
}

/// A truth value in words.
fn word(b: bool) -> (r: &'static str)
    ensures
        r@ == watchlog::truth(b),
{
    if b {
        "true"
    } else {
        "false"
    }
}

/// A JSON object of one window.
fn object(key: usize, f: &WindowFacts, aumid: &str, suffixed: bool, grouped: bool) -> (r: String)
    ensures
        r@ == json_object(key, *f, aumid@, suffixed, grouped),
{
    let mut r: String = "{\"hwnd\":\"0x".to_owned();
    r.push_str(winutil::hwnd_hex(key).as_str());
    r.push_str("\",\"pid\":");
    r.push_str(num::decimal_text(f.pid as u64).as_str());
    r.push_str(",\"class\":\"");
    r.push_str(json_escape(f.class.as_str()).as_str());
    r.push_str("\",\"title\":\"");
    r.push_str(json_escape(f.title.as_str()).as_str());
    r.push_str("\",\"aumid\":");
    r.push_str(aumid);
    r.push_str(",\"suffixed\":");
    r.push_str(word(suffixed));
    r.push_str(",\"grouped\":");
    r.push_str(word(grouped));
    r.push_str("}");
    r
}

/// A text as a JSON string.
fn quoted(s: &str) -> (r: String)
    ensures
        r@ == json_string(s@),
{
    let mut r: String = "\"".to_owned();
    r.push_str(json_escape(s).as_str());
    r.push_str("\"");
    r
}

/// A label and a text behind it.
fn labelled(label: &str, s: &str) -> (r: String)
    ensures
        r@ == label@ + s@,
{
    let mut r: String = label.to_owned();
    r.push_str(s);
    r
}

/// The details of one window, in lines or as JSON. Its id must be readable.
pub fn inspect_one(key: usize, f: &WindowFacts, json: bool) -> (r: Result<Vec<String>, String>)
    ensures
        match f.aumid {
            Err(e) => r matches Err(w) && w@ == unreadable(key, e@),
            Ok(a) => r matches Ok(out) && text::texts(out@) == details(key, *f, a@, json),
        },
{
    match &f.aumid {
        Err(e) => {
            let mut w: String = "inspect 0x".to_owned();
            w.push_str(winutil::hwnd_hex(key).as_str());
            w.push_str(": read AUMID failed: ");
            w.push_str(e.as_str());
            Err(w)
        },
        Ok(a) => {
            let mut out: Vec<String> = text::no_lines();
            let suffixed: bool = appid::strip_suffix(a.as_str(), key).is_some();
            let grouped: bool = appid::is_group_aumid(a.as_str());
            if json {
                text::say(&mut out, object(key, f, quoted(a.as_str()).as_str(), suffixed, grouped));
            } else {
                text::say(&mut out, labelled("HWND     : 0x", winutil::hwnd_hex(key).as_str()));
                text::say(
                    &mut out,
                    labelled("PID      : ", num::decimal_text(f.pid as u64).as_str()),
                );
                text::say(&mut out, labelled("Class    : ", f.class.as_str()));
                text::say(&mut out, labelled("Title    : ", f.title.as_str()));
                text::say(&mut out, labelled("AUMID    : ", winutil::shown_aumid(a.as_str())));
                text::say(&mut out, labelled("Suffixed : ", word(suffixed)));
                text::say(&mut out, labelled("Grouped  : ", word(grouped)));
            }
            Ok(out)
        },
    }
}

/// The windows as a JSON array: those that are application windows, or all.
pub fn inspect_json(ws: &Vec<(usize, WindowFacts)>, all: bool) -> (r: String)
    ensures
        r@ == "["@ + text::joined(json_rows(ws@, all), seq![',']) + "]"@,
{
    let mut rows: Vec<Vec<char>> = Vec::new();
    let mut i: usize = 0;
    assert(ws@.take(0) =~= Seq::<(usize, WindowFacts)>::empty());
    assert(text::pieces(rows@) =~= json_rows(ws@.take(0), all));
    while i < ws.len()
        invariant
            i <= ws@.len(),
            text::pieces(rows@) == json_rows(ws@.take(i as int), all),
        decreases ws@.len() - i,
    {
        proof {
            assert(ws@.take(i + 1).drop_last() =~= ws@.take(i as int));
            assert(ws@.take(i + 1).last() == ws@[i as int]);
        }
        let w: &(usize, WindowFacts) = &ws[i];
        if all || w.1.is_app_window() {
            let row: String = match &w.1.aumid {
                Ok(a) => object(
                    w.0,
                    &w.1,
                    quoted(a.as_str()).as_str(),
                    text::contains_text(a.as_str(), appid::SUFFIX_MARKER),
                    appid::is_group_aumid(a.as_str()),
                ),
                Err(_) => object(w.0, &w.1, "null", false, false),
            };
            let ghost was = rows@;
            rows.push(text::chars_of(row.as_str()));
            assert(text::pieces(rows@) =~= text::pieces(was).push(row@));
        }
        i += 1;
    }
    assert(ws@.take(i as int) =~= ws@);
    let mut r: String = "[".to_owned();
    r.push_str(text::text_of(text::join_pieces(&rows, ',').as_slice()).as_str());
    r.push_str("]");
    r
}

/// A line of the table.
fn row(hwnd: &str, pid: &str, class: &str, aumid: &str, title: &str) -> (r: String)
    ensures
        r@ == table_line(hwnd@, pid@, class@, aumid@, title@),
{
    let mut r: String = text::pad(hwnd, 18);
    r.push_str(" ");
    r.push_str(text::pad(pid, 7).as_str());
    r.push_str(" ");
    r.push_str(text::pad(class, 26).as_str());
    r.push_str(" ");
    r.push_str(text::pad(aumid, 30).as_str());
    r.push_str(" ");
    r.push_str(title);
    r
}

/// The windows as a table: those that are application windows, or all.
pub fn inspect_table(ws: &Vec<(usize, WindowFacts)>, all: bool) -> (out: Vec<String>)
    ensures
        text::texts(out@) == table(ws@, all),
{
    let mut out: Vec<String> = text::no_lines();
    text::say(&mut out, row("HWND", "PID", "CLASS", "AUMID", "TITLE"));
    let mut i: usize = 0;
    assert(ws@.take(0) =~= Seq::<(usize, WindowFacts)>::empty());
    while i < ws.len()
        invariant
            i <= ws@.len(),
            text::texts(out@) == table(ws@.take(i as int), all),
        decreases ws@.len() - i,
    {
        proof {
            assert(ws@.take(i + 1).drop_last() =~= ws@.take(i as int));
            assert(ws@.take(i + 1).last() == ws@[i as int]);
        }
        let w: &(usize, WindowFacts) = &ws[i];
        if all || w.1.is_app_window() {
            let aumid: &str = match &w.1.aumid {
                Ok(a) => a.as_str(),
                Err(_) => "<unreadable>",
            };
            text::say(
                &mut out,
                row(
                    labelled("0x", winutil::hwnd_hex(w.0).as_str()).as_str(),
                    num::decimal_text(w.1.pid as u64).as_str(),
                    truncate(w.1.class.as_str(), 26).as_str(),
                    truncate(aumid, 30).as_str(),
                    w.1.title.as_str(),
                ),
            );
        }
        i += 1;
    }
    assert(ws@.take(i as int) =~= ws@);
    out
}

} // verus!
