//! The bounded log file: one line for each key event, and the older half dropped
//! when the file grows too large.

use vstd::prelude::*;

use crate::num;
use crate::text;

verus! {

/// The name of the file.
pub const LOG_FILE_NAME: &'static str = "tbg.log";

/// The size above which the older half is dropped, in bytes.
pub const MAX_BYTES: u64 = 262144;

/// The log. Without a path nothing is logged.
pub struct RingLog {
    path: Option<String>,
}

// ---------------------------------------------------------------------------
// Models
// ---------------------------------------------------------------------------

/// The number of bytes of a character in UTF-8.
pub open spec fn char_bytes(c: char) -> nat {
    if (c as u32) < 0x80 {
        1
    } else if (c as u32) < 0x800 {
        2
    } else if (c as u32) < 0x10000 {
        3
    } else {
        4
    }
}

/// The number of bytes of a text in UTF-8.
pub open spec fn bytes(s: Seq<char>) -> nat
    decreases s.len(),
{
    if s.len() == 0 {
        0
    } else {
        bytes(s.drop_last()) + char_bytes(s.last())
    }
}

/// Whether a line starts at `k`, or would start there at the end of the text.
pub open spec fn line_start(s: Seq<char>, k: int) -> bool {
    0 <= k <= s.len() && (k == 0 || s[k - 1] == '\n')
}

/// Whether a line starts at `k`, at the byte `target` or behind it.
pub open spec fn starts_late(s: Seq<char>, target: u64, k: int) -> bool {
    line_start(s, k) && bytes(s.take(k)) >= target
}

/// Whether `k` is the first line start at the byte `target` or behind it.
pub open spec fn first_late(s: Seq<char>, target: u64, k: int) -> bool {
    starts_late(s, target, k) && forall|j: int| 0 <= j < k ==> !starts_late(s, target, j)
}

/// What is kept of a text from the byte `target` on: whole lines, from the first
/// that starts there or later. Where there is none, or the text is not that long,
/// all of it.
pub open spec fn is_tail(s: Seq<char>, target: u64, r: Seq<char>) -> bool {
    if target < bytes(s) && exists|k: int| first_late(s, target, k) {
        exists|k: int| first_late(s, target, k) && r == s.skip(k)
    } else {
        r == s
    }
}

// ---------------------------------------------------------------------------
// Laws
// ---------------------------------------------------------------------------

/// The bytes of a text are those of its front and of the rest.
proof fn lemma_bytes_split(s: Seq<char>, k: int)
    requires
        0 <= k <= s.len(),
    ensures
        bytes(s) == bytes(s.take(k)) + bytes(s.skip(k)),
    decreases s.len(),
{
    if k == s.len() {
        assert(s.take(k) =~= s);
        assert(s.skip(k) =~= Seq::<char>::empty());
    } else {
        let t = s.drop_last();
        lemma_bytes_split(t, k);
        assert(t.take(k) =~= s.take(k));
        assert(s.skip(k).drop_last() =~= t.skip(k));
    }
}

/// The tail of a text is an end of it that begins with a line, so no line is cut.
pub proof fn law_tail_is_whole_lines(s: Seq<char>, target: u64, r: Seq<char>)
    requires
        is_tail(s, target, r),
    ensures
        exists|k: int| #[trigger] line_start(s, k) && r == s.skip(k),
{
    if target < bytes(s) && exists|k: int| first_late(s, target, k) {
        let k = choose|k: int| first_late(s, target, k) && r == s.skip(k);
        assert(line_start(s, k) && r == s.skip(k));
    } else {
        assert(s.skip(0) =~= s);
        assert(line_start(s, 0));
    }
}

/// The log stays bounded: of a text that ends with a line feed, as the log does,
/// the tail from the byte `target` on is no longer than what lies behind that
/// byte.
pub proof fn law_tail_is_bounded(s: Seq<char>, target: u64, r: Seq<char>)
    requires
        is_tail(s, target, r),
        s.len() > 0 && s.last() == '\n',
        target < bytes(s),
    ensures
        bytes(r) <= bytes(s) - target,
{
    let n = s.len() as int;
    assert(s.take(n) =~= s);
    assert(starts_late(s, target, n));
    lemma_first_exists(s, target, n);
    let k = choose|k: int| first_late(s, target, k) && r == s.skip(k);
    lemma_bytes_split(s, k);
}

/// Where a line starts late there is a first one.
proof fn lemma_first_exists(s: Seq<char>, target: u64, k: int)
    requires
        starts_late(s, target, k),
    ensures
        exists|j: int| first_late(s, target, j),
    decreases k,
{
    if exists|j: int| 0 <= j < k && starts_late(s, target, j) {
        let j = choose|j: int| 0 <= j < k && starts_late(s, target, j);
        lemma_first_exists(s, target, j);
    } else {
        assert(first_late(s, target, k));
    }
}

/// The size of a text is the sum of the sizes of its parts, and that of a character is its
/// size in UTF-8.
pub proof fn law_sizes(a: Seq<char>, b: Seq<char>, c: char)
    ensures
        bytes(Seq::empty()) == 0,
        bytes(a + b) == bytes(a) + bytes(b),
        (c as u32) <= 0x7f ==> bytes(seq![c]) == 1,
        0x80 <= (c as u32) <= 0x7ff ==> bytes(seq![c]) == 2,
        0x800 <= (c as u32) <= 0xffff ==> bytes(seq![c]) == 3,
        0x10000 <= (c as u32) ==> bytes(seq![c]) == 4,
{
    let s = a + b;
    lemma_bytes_split(s, a.len() as int);
    assert(s.take(a.len() as int) =~= a);
    assert(s.skip(a.len() as int) =~= b);
    assert(seq![c].drop_last() =~= Seq::<char>::empty());
    assert(bytes(seq![c].drop_last()) == 0);
}

/// There is one tail of a text. It begins with the first line that starts at the byte `target`
/// or behind it; it is the whole text where no line does, or where the text ends before.
pub proof fn law_tail(a: Seq<char>, b: Seq<char>, target: u64, r: Seq<char>, other: Seq<char>)
    ensures
        is_tail(a + b, target, r) && is_tail(a + b, target, other) ==> r == other,
        target >= bytes(a + b) ==> is_tail(a + b, target, a + b),
        (a.len() == 0 || a.last() == '\n') && target < bytes(a + b) && bytes(a) >= target && (
        forall|j: int|
            0 <= j < a.len() && (j == 0 || a[j - 1] == '\n') ==> bytes(#[trigger] a.take(j))
                < target) ==> is_tail(a + b, target, b),
        (forall|j: int|
            0 <= j <= a.len() && (j == 0 || a[j - 1] == '\n') ==> bytes(#[trigger] a.take(j))
                < target) ==> is_tail(a, target, a),
{
    let s = a + b;
    assert forall|i: int, j: int| first_late(s, target, i) && first_late(s, target, j) implies i
        == j by {
        if i < j {
            assert(!starts_late(s, target, i));
        }
        if j < i {
            assert(!starts_late(s, target, j));
        }
    }
    let n = a.len() as int;
    assert(s.take(n) =~= a);
    assert(s.skip(n) =~= b);
    if (a.len() == 0 || a.last() == '\n') && target < bytes(s) && bytes(a) >= target && (forall|
        j: int,
    |
        0 <= j < a.len() && (j == 0 || a[j - 1] == '\n') ==> bytes(#[trigger] a.take(j)) < target) {
        assert(n > 0 ==> s[n - 1] == a.last());
        assert(starts_late(s, target, n));
        assert forall|j: int| 0 <= j < n implies !starts_late(s, target, j) by {
            assert(s.take(j) =~= a.take(j));
            if j > 0 {
                assert(s[j - 1] == a[j - 1]);
            }
        }
        assert(first_late(s, target, n));
    }
    if forall|j: int|
        0 <= j <= a.len() && (j == 0 || a[j - 1] == '\n') ==> bytes(#[trigger] a.take(j))
            < target {
        assert forall|k: int| !first_late(a, target, k) by {
            if starts_late(a, target, k) {
                assert(bytes(a.take(k)) < target);
            }
        }
    }
}

/// The log has its name, and may grow to 256 KiB.
pub proof fn law_log_file()
    ensures
        LOG_FILE_NAME@ == "tbg.log"@,
        MAX_BYTES == 256 * 1024,
{
}

// ---------------------------------------------------------------------------
// Functions
// ---------------------------------------------------------------------------

/// The number of bytes of a character in UTF-8.
fn byte_count(c: char) -> (n: u128)
    ensures
        n == char_bytes(c),
{
    if (c as u32) < 0x80 {
        1
    } else if (c as u32) < 0x800 {
        2
    } else if (c as u32) < 0x10000 {
        3
    } else {
        4
    }
}

/// The number of bytes of a text in UTF-8.
fn byte_len(s: &[char]) -> (n: u128)
    ensures
        n == bytes(s@),
        n <= 4 * s@.len(),
{
    let mut n: u128 = 0;
    let mut i: usize = 0;
    while i < s.len()
        invariant
            i <= s@.len(),
            n == bytes(s@.take(i as int)),
            n <= 4 * i,
        decreases s@.len() - i,
    {
        proof {
            assert(s@.take(i + 1).drop_last() =~= s@.take(i as int));
        }
        n += byte_count(s[i]);
        i += 1;
    }
    assert(s@.take(i as int) =~= s@);
    n
}

/// What is kept of a text from the byte `target_start` on: whole lines.
pub fn trim_keep_tail<'a>(content: &'a str, target_start: u64) -> (r: &'a str)
    ensures
        is_tail(content@, target_start, r@),
{
    let s: Vec<char> = text::chars_of(content);
    let n: usize = s.len();
    let total: u128 = byte_len(s.as_slice());
    if target_start as u128 >= total {
        return content;
    }
    let mut at: u128 = 0;
    let mut k: usize = 0;
    while k <= n
        invariant
            s@ == content@,
            n == s@.len(),
            k <= n + 1,
            k <= n ==> at == bytes(s@.take(k as int)),
            at <= 4 * k,
            target_start < bytes(s@),
            forall|j: int| 0 <= j < k ==> !starts_late(s@, target_start, j),
        decreases n + 1 - k,
    {
        if at >= target_start as u128 && (k == 0 || s[k - 1] == '\n') {
            assert(first_late(s@, target_start, k as int));
            return content.substring_char(k, n);
        }
        if k == n {
            proof {
                assert forall|j: int| !first_late(s@, target_start, j) by {
                    if 0 <= j < k {
                        assert(!starts_late(s@, target_start, j));
                    }
                }
            }
            return content;
        }
        proof {
            assert(s@.take(k + 1).drop_last() =~= s@.take(k as int));
        }
        at += byte_count(s[k]);
        k += 1;
    }
    content
}

/// The later half of a log, in whole lines.
pub fn newer_half<'a>(content: &'a str) -> (r: &'a str)
    ensures
        bytes(content@) / 2 <= u64::MAX ==> is_tail(
            content@,
            (bytes(content@) / 2) as u64,
            r@,
        ),
        bytes(content@) / 2 > u64::MAX ==> r@ == content@,
{
    let half: u128 = byte_len(text::chars_of(content).as_slice()) / 2;
    if half > u64::MAX as u128 {
        content
    } else {
        trim_keep_tail(content, half as u64)
    }
}

/// Whether a log of this many bytes has grown too large.
pub fn oversized(len: u64) -> (r: bool)
    ensures
        r == (len > MAX_BYTES),
{
    len > MAX_BYTES
}

impl RingLog {
    /// Where the log is.
    pub closed spec fn place(&self) -> Option<Seq<char>> {
        text::opt_text(self.path)
    }

    /// Opens the log: at `path` where it is wanted and there is a place for it.
    pub fn open(wanted: bool, path: Option<String>) -> (r: RingLog)
        ensures
            r.place() == (if wanted {
                text::opt_text(path)
            } else {
                None
            }),
    {
        if wanted {
            RingLog { path }
        } else {
            RingLog { path: None }
        }
    }

    /// Whether anything is logged.
    pub fn enabled(&self) -> (r: bool)
        ensures
            r == (self.place() is Some),
    {
        self.path.is_some()
    }

    /// Where the log is.
    pub fn path(&self) -> (r: Option<String>)
        ensures
            text::opt_text(r) == self.place(),
    {
        match &self.path {
            Some(p) => Some(p.clone()),
            None => None,
        }
    }

    /// The line that is added for a message at `now`, in seconds of Unix time;
    /// none where nothing is logged.
    pub fn log(&self, now: u64, msg: &str) -> (r: Option<String>)
        ensures
            text::opt_text(r) == (if self.place() is Some {
                Some("["@ + num::decimal(now as nat) + "] "@ + msg@ + "\n"@)
            } else {
                None
            }),
    {
        if self.path.is_none() {
            return None;
        }
        let mut line: String = "[".to_owned();
        line.push_str(num::decimal_text(now).as_str());
        line.push_str("] ");
        line.push_str(msg);
        line.push_str("\n");
        Some(line)
    }
}

} // verus!
