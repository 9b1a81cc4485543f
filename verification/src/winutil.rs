//! Windows and their handles: what is read of a window, and what follows from it.
//!
//! A window handle is a machine word (`usize`); zero is the null handle.

use vstd::prelude::*;

use crate::num;
use crate::text;
use crate::utf16;

verus! {

/// What is read of one window.
pub struct WindowFacts {
    /// The window is its own root: it is a top-level window.
    pub is_root: bool,
    /// The window is visible.
    pub visible: bool,
    /// The window's title.
    pub title: String,
    /// The name of the window's class.
    pub class: String,
    /// The window's extended style bits.
    pub ex_style: u32,
    /// The window's cloak bits; `None` where they could not be queried.
    pub cloak: Option<u32>,
    /// The process that owns the window.
    pub pid: u32,
    /// The window's application id, or why it could not be read.
    pub aumid: Result<String, String>,
}

/// The style bit of tool windows, which have no taskbar button.
pub const WS_EX_TOOLWINDOW: u32 = 0x80;

/// The status of a COM initialisation in another mode than asked for.
pub const RPC_E_CHANGED_MODE: i32 = -2147417850;

/// Whether a class name is that of the desktop or of a taskbar; letter case
/// does not count.
pub open spec fn shell_class(class: Seq<char>) -> bool {
    let c = text::lower(class);
    ||| c == text::lower("Progman"@)
    ||| c == text::lower("WorkerW"@)
    ||| c == text::lower("Shell_TrayWnd"@)
    ||| c == text::lower("Shell_SecondaryTrayWnd"@)
    ||| c == text::lower("XamlExplorerHostIslandWindow"@)
}

/// The handle that a text denotes: a signed hexadecimal number, with white space
/// around it and any number of prefixes `0x`, then `0X`, before it. A negative
/// number is taken modulo the word size.
pub open spec fn hwnd_of(s: Seq<char>) -> Option<usize> {
    let t = text::strip_repeated(text::strip_repeated(text::trim(s), "0x"@), "0X"@);
    match num::signed(t, 16, isize::MAX as nat) {
        Some(v) => if v >= 0 {
            Some(v as usize)
        } else {
            Some((v + usize::MAX + 1) as usize)
        },
        None => None,
    }
}

impl WindowFacts {
    /// Whether the window looks like an application's main window: top-level,
    /// visible, with a title, and no tool window.
    pub open spec fn app_window(&self) -> bool {
        &&& self.is_root
        &&& self.visible
        &&& self.title@.len() > 0
        &&& self.ex_style & WS_EX_TOOLWINDOW == 0
    }

    /// Whether the window belongs to the desktop or the taskbar.
    pub open spec fn shell_window(&self) -> bool {
        shell_class(self.class@)
    }

    /// Whether the window is cloaked; one that cannot be queried is not.
    pub open spec fn cloaked(&self) -> bool {
        self.cloak matches Some(bits) && bits != 0
    }

    /// Whether the window looks like an application's main window.
    pub fn is_app_window(&self) -> (r: bool)
        ensures
            r == self.app_window(),
    {
        self.is_root && self.visible && !self.title.as_str().is_empty() && self.ex_style
            & WS_EX_TOOLWINDOW == 0
    }

    /// Whether the window belongs to the desktop or the taskbar.
    pub fn is_shell_window(&self) -> (r: bool)
        ensures
            r == self.shell_window(),
    {
        let c: Vec<char> = text::lowered(text::chars_of(self.class.as_str()).as_slice());
        same_lowered(c.as_slice(), "Progman") || same_lowered(c.as_slice(), "WorkerW")
            || same_lowered(c.as_slice(), "Shell_TrayWnd") || same_lowered(
            c.as_slice(),
            "Shell_SecondaryTrayWnd",
        ) || same_lowered(c.as_slice(), "XamlExplorerHostIslandWindow")
    }

    /// Whether the window is cloaked.
    pub fn is_cloaked(&self) -> (r: bool)
        ensures
            r == self.cloaked(),
    {
        match self.cloak {
            Some(bits) => bits != 0,
            None => false,
        }
    }
}

/// A window has a button in the taskbar where it is top-level, visible, has a title and is
/// no tool window; it is cloaked where its bits are known and not zero.
pub proof fn law_window_kinds(f: WindowFacts)
    ensures
        f.app_window() <==> f.is_root && f.visible && f.title@ != Seq::<char>::empty()
            && f.ex_style & 0x80 == 0,
        f.cloaked() <==> f.cloak is Some && f.cloak != Some(0u32),
{
    assert(f.title@.len() == 0 ==> f.title@ =~= Seq::<char>::empty());
}

/// The status of a thread that was initialised in another mode is 0x80010106.
pub proof fn law_com_status()
    ensures
        RPC_E_CHANGED_MODE == 0x80010106 - 0x1_0000_0000,
{
}

/// The windows of the shell are those of five classes, in upper or lower case.
pub proof fn law_shell_windows(f: WindowFacts)
    ensures
        f.shell_window() <==> ({
            let class = text::lower(f.class@);
            ||| class == "progman"@
            ||| class == "workerw"@
            ||| class == "shell_traywnd"@
            ||| class == "shell_secondarytraywnd"@
            ||| class == "xamlexplorerhostislandwindow"@
        }),
{
    lemma_lower_names();
}

/// The names of the five classes in lower case.
proof fn lemma_lower_names()
    ensures
        text::lower("Progman"@) == "progman"@,
        text::lower("WorkerW"@) == "workerw"@,
        text::lower("Shell_TrayWnd"@) == "shell_traywnd"@,
        text::lower("Shell_SecondaryTrayWnd"@) == "shell_secondarytraywnd"@,
        text::lower("XamlExplorerHostIslandWindow"@) == "xamlexplorerhostislandwindow"@,
{
    reveal_strlit("Progman");
    reveal_strlit("progman");
    assert(text::lower("Progman"@) =~= "progman"@);
    reveal_strlit("WorkerW");
    reveal_strlit("workerw");
    assert(text::lower("WorkerW"@) =~= "workerw"@);
    reveal_strlit("Shell_TrayWnd");
    reveal_strlit("shell_traywnd");
    assert(text::lower("Shell_TrayWnd"@) =~= "shell_traywnd"@);
    reveal_strlit("Shell_SecondaryTrayWnd");
    reveal_strlit("shell_secondarytraywnd");
    assert(text::lower("Shell_SecondaryTrayWnd"@) =~= "shell_secondarytraywnd"@);
    reveal_strlit("XamlExplorerHostIslandWindow");
    reveal_strlit("xamlexplorerhostislandwindow");
    assert(text::lower("XamlExplorerHostIslandWindow"@) =~= "xamlexplorerhostislandwindow"@);
}

/// A handle is read back from its digits, with or without a prefix and with white space
/// around, where it is no larger than a signed number can be.
pub proof fn law_handle_is_read_back(h: usize, a: Seq<char>, b: Seq<char>)
    requires
        h <= isize::MAX,
        text::blank(a),
        text::blank(b),
    ensures
        hwnd_of(a + num::hex(h as nat) + b) == Some(h),
        hwnd_of(a + ("0x"@ + num::hex(h as nat)) + b) == Some(h),
        hwnd_of(a + ("0X"@ + num::hex(h as nat)) + b) == Some(h),
{
    reveal_strlit("0x");
    reveal_strlit("0X");
    let d = num::hex(h as nat);
    num::lemma_numeral(h as nat, 16);
    num::lemma_numeral_round_trip(h as nat, 16, isize::MAX as nat);
    assert forall|i: int| 0 <= i < d.len() implies !text::white_space(d[i]) && d[i] != 'x' && d[i]
        != 'X' && d[i] != '-' && d[i] != '+' by {
        assert(num::upper_hex_digit(d[i]));
    }
    text::lemma_trim_is(a, d, b);
    text::lemma_trim_is(a, "0x"@ + d, b);
    text::lemma_trim_is(a, "0X"@ + d, b);
    assert(!text::starts_with(d, "0x"@)) by {
        if text::starts_with(d, "0x"@) {
            assert(d.subrange(0, 2)[1] == d[1]);
        }
    }
    assert(!text::starts_with(d, "0X"@)) by {
        if text::starts_with(d, "0X"@) {
            assert(d.subrange(0, 2)[1] == d[1]);
        }
    }
    assert(!text::starts_with("0X"@ + d, "0x"@)) by {
        if text::starts_with("0X"@ + d, "0x"@) {
            assert(("0X"@ + d).subrange(0, 2)[1] == ("0X"@ + d)[1]);
        }
    }
    text::law_strip_repeated(d, "0x"@);
    text::law_strip_repeated(d, "0X"@);
    text::law_strip_repeated("0X"@ + d, "0x"@);
}

/// A handle is what a signed hexadecimal number denotes, a negative one counted from the
/// end of the range; what is no such number denotes none.
pub proof fn law_handles(s: Seq<char>)
    requires
        text::trim(s) == s,
        !text::starts_with(s, "0x"@),
        !text::starts_with(s, "0X"@),
    ensures
        match num::signed(s, 16, isize::MAX as nat) {
            Some(v) => hwnd_of(s) matches Some(h) && (h == v || h == v + usize::MAX + 1),
            None => hwnd_of(s) is None,
        },
{
    reveal_strlit("0x");
    reveal_strlit("0X");
    text::law_strip_repeated(s, "0x"@);
    text::law_strip_repeated(s, "0X"@);
    match num::signed(s, 16, isize::MAX as nat) {
        Some(v) => {
            assert(-(isize::MAX as int) - 1 <= v <= isize::MAX);
        },
        None => {},
    }
}

/// A path below another is that one and the relative one, with one separator between them
/// at most.
pub proof fn law_joined_path(base: Seq<char>, rest: Seq<char>)
    ensures
        joined_path(base, rest) == base + rest || joined_path(base, rest) == base + seq!['\\']
            + rest,
        joined_path(base, rest) == base + rest <==> base.len() == 0
            || base.last() == '\\' || base.last() == '/' || (base.len() == 2 && base[1] == ':' && (
        ('a' <= base[0] && base[0] <= 'z') || ('A' <= base[0] && base[0] <= 'Z'))),
{
    reveal_strlit("\\");
    assert("\\"@ =~= seq!['\\']);
    let r = base + seq!['\\'] + rest;
    assert((seq!['\\'] + rest).len() == rest.len() + 1);
    assert(r.len() == base.len() + rest.len() + 1);
}

/// An id is shown as it is, and none as a word in brackets.
pub proof fn law_shown(s: Seq<char>)
    ensures
        s.len() > 0 ==> shown(s) == s,
        s.len() == 0 ==> shown(s) == "<empty>"@,
{
}

/// Whether lower-case characters are those of `name` in lower case.
fn same_lowered(lowered: &[char], name: &str) -> (r: bool)
    ensures
        r == (lowered@ == text::lower(name@)),
{
    text::same_chars(lowered, text::lowered(text::chars_of(name).as_slice()).as_slice())
}

/// The text of the first `len` code units of a buffer; a length that is not
/// positive gives no text, one beyond the buffer all of it.
pub fn wide_buf_to_string(buf: &[u16], len: i32) -> (r: String)
    ensures
        len <= 0 ==> r@.len() == 0,
        0 < len <= buf@.len() ==> r@ == utf16::decoded(buf@.take(len as int)),
        len > buf@.len() ==> r@ == utf16::decoded(buf@),
{
    if len <= 0 {
        return String::new();
    }
    let n: usize = buf.len();
    let end: usize = if len as u64 > n as u64 {
        n
    } else {
        len as usize
    };
    assert(buf@.take(n as int) =~= buf@);
    utf16::decode(buf, end)
}

/// An application id for display: an empty one shows as `<empty>`.
pub fn shown_aumid(s: &str) -> (r: &str)
    ensures
        r@ == shown(s@),
{
    if s.is_empty() {
        "<empty>"
    } else {
        s
    }
}

/// How an application id is displayed.
pub open spec fn shown(s: Seq<char>) -> Seq<char> {
    if s.len() == 0 {
        "<empty>"@
    } else {
        s
    }
}

/// Reads a window handle.
pub fn parse_hwnd(s: &str) -> (r: Result<usize, String>)
    ensures
        match r {
            Ok(h) => hwnd_of(s@) == Some(h),
            Err(e) => hwnd_of(s@) is None && e@ == "invalid HWND '"@ + s@
                + "' (expected hex, e.g. 0x00000000010C12A8)"@,
        },
{
    proof {
        reveal_strlit("0x");
        reveal_strlit("0X");
    }
    let t: Vec<char> = text::trimmed(text::chars_of(s).as_slice());
    let t: Vec<char> = text::without_repeated(t.as_slice(), text::chars_of("0x").as_slice());
    let t: Vec<char> = text::without_repeated(t.as_slice(), text::chars_of("0X").as_slice());
    match num::read_hex_isize(t.as_slice()) {
        Some(v) => {
            if v >= 0 {
                Ok(v as usize)
            } else {
                Ok(usize::MAX - (-(v + 1)) as usize)
            }
        },
        None => {
            let mut e: String = "invalid HWND '".to_owned();
            e.push_str(s);
            e.push_str("' (expected hex, e.g. 0x00000000010C12A8)");
            Err(e)
        },
    }
}

/// A window handle in upper-case hexadecimal.
pub fn hwnd_hex(hwnd: usize) -> (r: String)
    ensures
        r@ == num::hex(hwnd as nat),
{
    num::hex_text(hwnd)
}

/// What a COM initialisation with status `hr` means: `Ok(true)` where it has to
/// be undone later, `Ok(false)` where the thread was already initialised in
/// another mode, and an error for every other failure; `shown` is the status as
/// displayed.
pub fn com_init(hr: i32, shown: &str) -> (r: Result<bool, String>)
    ensures
        hr >= 0 ==> r == Ok::<bool, String>(true),
        hr == RPC_E_CHANGED_MODE ==> r == Ok::<bool, String>(false),
        hr < 0 && hr != RPC_E_CHANGED_MODE ==> (r matches Err(e) && e@
            == "CoInitializeEx failed: "@ + shown@),
{
    if hr >= 0 {
        Ok(true)
    } else if hr == RPC_E_CHANGED_MODE {
        Ok(false)
    } else {
        let mut e: String = "CoInitializeEx failed: ".to_owned();
        e.push_str(shown);
        Err(e)
    }
}

/// A path and a relative path below it. No separator comes between them behind
/// nothing, behind a separator or behind a drive alone.
pub open spec fn joined_path(base: Seq<char>, rest: Seq<char>) -> Seq<char> {
    if base.len() == 0 || base.last() == '\\' || base.last() == '/' || drive_alone(base) {
        base + rest
    } else {
        base + "\\"@ + rest
    }
}

/// Whether a path is a drive and nothing else.
pub open spec fn drive_alone(p: Seq<char>) -> bool {
    p.len() == 2 && p[1] == ':' && (('a' <= p[0] && p[0] <= 'z') || ('A' <= p[0] && p[0] <= 'Z'))
}

/// A path and a relative path below it.
pub fn join_path(base: &str, rest: &str) -> (r: String)
    ensures
        r@ == joined_path(base@, rest@),
{
    let b: Vec<char> = text::chars_of(base);
    let n: usize = b.len();
    let mut r: String = base.to_owned();
    let drive: bool = n == 2 && b[1] == ':' && (('a' <= b[0] && b[0] <= 'z') || ('A' <= b[0]
        && b[0] <= 'Z'));
    if n > 0 && b[n - 1] != '\\' && b[n - 1] != '/' && !drive {
        r.push_str("\\");
    }
    r.push_str(rest);
    r
}

} // verus!
