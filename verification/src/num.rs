//! Numbers as text: numerals in decimal and upper-case hexadecimal, and the
//! reading of signed and unsigned numbers.

use vstd::prelude::*;

use crate::text;

verus! {

// ---------------------------------------------------------------------------
// Models
// ---------------------------------------------------------------------------

/// The character of the digit `d`, for `d` below 16.
pub open spec fn digit_char(d: nat) -> char {
    if d < 10 {
        ((48 + d) as u32) as char
    } else {
        ((55 + d) as u32) as char
    }
}

/// The value of `c` as a digit; letters count in either case.
pub open spec fn digit_value(c: char) -> Option<nat> {
    if '0' <= c && c <= '9' {
        Some((c as u32 - 48) as nat)
    } else if 'A' <= c && c <= 'F' {
        Some((c as u32 - 55) as nat)
    } else if 'a' <= c && c <= 'f' {
        Some((c as u32 - 87) as nat)
    } else {
        None
    }
}

/// The shortest numeral of `n` in base `radix`.
pub open spec fn numeral(n: nat, radix: nat) -> Seq<char>
    decreases n,
{
    if radix < 2 || n < radix {
        seq![digit_char(n)]
    } else {
        proof {
            vstd::arithmetic::div_mod::lemma_div_decreases(n as int, radix as int);
        }
        numeral(n / radix, radix).push(digit_char(n % radix))
    }
}

/// `n` in decimal.
pub open spec fn decimal(n: nat) -> Seq<char> {
    numeral(n, 10)
}

/// `n` in upper-case hexadecimal.
pub open spec fn hex(n: nat) -> Seq<char> {
    numeral(n, 16)
}

/// The number that a sequence of digits denotes; `None` where a character is no
/// digit in base `radix`.
pub open spec fn digits_value(s: Seq<char>, radix: nat) -> Option<nat>
    decreases s.len(),
{
    if s.len() == 0 {
        Some(0)
    } else {
        match (digits_value(s.drop_last(), radix), digit_value(s.last())) {
            (Some(h), Some(d)) => if d < radix {
                Some(h * radix + d)
            } else {
                None
            },
            _ => None,
        }
    }
}

/// `s` without a plus sign at its start.
pub open spec fn without_plus(s: Seq<char>) -> Seq<char> {
    if s.len() > 0 && s[0] == '+' {
        s.skip(1)
    } else {
        s
    }
}

/// The unsigned number up to `max` that `s` denotes: at least one digit, with an
/// optional plus sign before it.
pub open spec fn unsigned(s: Seq<char>, radix: nat, max: nat) -> Option<nat> {
    let body = without_plus(s);
    match digits_value(body, radix) {
        Some(n) => if body.len() > 0 && n <= max {
            Some(n)
        } else {
            None
        },
        None => None,
    }
}

/// The signed number from `-max - 1` up to `max` that `s` denotes: at least one
/// digit, with an optional sign before it.
pub open spec fn signed(s: Seq<char>, radix: nat, max: nat) -> Option<int> {
    if s.len() > 0 && s[0] == '-' {
        match digits_value(s.skip(1), radix) {
            Some(n) => if s.len() > 1 && n <= max + 1 {
                Some(-(n as int))
            } else {
                None
            },
            None => None,
        }
    } else {
        match unsigned(s, radix, max) {
            Some(n) => Some(n as int),
            None => None,
        }
    }
}

/// Whether every character of `s` is an upper-case hexadecimal digit.
pub open spec fn upper_hex_digits(s: Seq<char>) -> bool {
    forall|i: int| 0 <= i < s.len() ==> upper_hex_digit(#[trigger] s[i])
}

/// Whether `c` is an upper-case hexadecimal digit.
pub open spec fn upper_hex_digit(c: char) -> bool {
    ('0' <= c && c <= '9') || ('A' <= c && c <= 'F')
}

// ---------------------------------------------------------------------------
// Facts
// ---------------------------------------------------------------------------

/// The digit of `d` is an upper-case hexadecimal digit of value `d`.
pub proof fn lemma_digit(d: nat)
    requires
        d < 16,
    ensures
        digit_value(digit_char(d)) == Some(d),
        upper_hex_digit(digit_char(d)),
{
}

/// A numeral denotes the number that it was made of, and holds digits only.
pub proof fn lemma_numeral(n: nat, radix: nat)
    requires
        2 <= radix <= 16,
    ensures
        digits_value(numeral(n, radix), radix) == Some(n),
        upper_hex_digits(numeral(n, radix)),
        numeral(n, radix).len() > 0,
    decreases n,
{
    if n < radix {
        lemma_digit(n);
        let s = numeral(n, radix);
        assert(s.drop_last() =~= Seq::<char>::empty());
        assert(digits_value(s.drop_last(), radix) == Some(0nat));
        assert(0 * radix == 0) by (nonlinear_arith);
    } else {
        vstd::arithmetic::div_mod::lemma_fundamental_div_mod(n as int, radix as int);
        vstd::arithmetic::div_mod::lemma_div_decreases(n as int, radix as int);
        vstd::arithmetic::mul::lemma_mul_is_commutative(radix as int, n as int / radix as int);
        lemma_numeral(n / radix, radix);
        lemma_digit(n % radix);
        let s = numeral(n, radix);
        assert(s.drop_last() =~= numeral(n / radix, radix));
        assert(s.last() == digit_char(n % radix));
    }
}

/// Reading a numeral gives back the number that it was made of.
pub proof fn lemma_numeral_round_trip(n: nat, radix: nat, max: nat)
    requires
        2 <= radix <= 16,
        n <= max,
    ensures
        unsigned(numeral(n, radix), radix, max) == Some(n),
{
    lemma_numeral(n, radix);
    assert(upper_hex_digit(numeral(n, radix)[0]));
}

/// Different numbers have different numerals.
pub proof fn lemma_numeral_injective(a: nat, b: nat, radix: nat)
    requires
        2 <= radix <= 16,
        numeral(a, radix) == numeral(b, radix),
    ensures
        a == b,
{
    lemma_numeral(a, radix);
    lemma_numeral(b, radix);
}

/// A number below `radix` to the power of `digits` has at most `digits` digits.
pub proof fn lemma_numeral_len(n: nat, radix: nat, digits: nat)
    requires
        2 <= radix,
        n < vstd::arithmetic::power::pow(radix as int, digits),
        digits > 0,
    ensures
        1 <= numeral(n, radix).len() <= digits,
    decreases digits,
{
    reveal(vstd::arithmetic::power::pow);
    if n >= radix {
        if digits == 1 {
            assert(vstd::arithmetic::power::pow(radix as int, 0) == 1);
            assert(radix * 1 == radix) by (nonlinear_arith);
        } else {
            let p = vstd::arithmetic::power::pow(radix as int, (digits - 1) as nat);
            assert(n < radix * p);
            assert(n / radix < p) by (nonlinear_arith)
                requires
                    n < radix * p,
                    radix > 0,
            ;
            lemma_numeral_len(n / radix, radix, (digits - 1) as nat);
        }
    }
}

/// The hexadecimal numeral of a machine word has between 1 and 16 digits.
pub proof fn lemma_hex_len(n: usize)
    ensures
        1 <= hex(n as nat).len() <= 16,
{
    assert(vstd::arithmetic::power::pow(16, 16) == 0x1_0000_0000_0000_0000) by {
        reveal(vstd::arithmetic::power::pow);
        reveal_with_fuel(vstd::arithmetic::power::pow, 17);
    }
    lemma_numeral_len(n as nat, 16, 16);
}

/// Digits behind others do not make the number smaller.
proof fn lemma_digits_monotonic(s: Seq<char>, k: int, radix: nat)
    requires
        0 <= k <= s.len(),
        radix >= 1,
        digits_value(s, radix) is Some,
    ensures
        digits_value(s.take(k), radix) is Some,
        digits_value(s.take(k), radix).unwrap() <= digits_value(s, radix).unwrap(),
    decreases s.len(),
{
    if k == s.len() {
        assert(s.take(k) =~= s);
    } else {
        let h = s.drop_last();
        lemma_digits_monotonic(h, k, radix);
        assert(h.take(k) =~= s.take(k));
        let v = digits_value(h, radix).unwrap();
        assert(v * radix >= v) by (nonlinear_arith)
            requires
                radix >= 1,
        ;
    }
}

// ---------------------------------------------------------------------------
// Laws
// ---------------------------------------------------------------------------

/// A number in decimal: its last digit stands behind the rest of it.
pub proof fn law_decimal(n: nat)
    ensures
        n < 10 ==> decimal(n) == seq![('0' as u32 + n) as u32 as char],
        n >= 10 ==> decimal(n) == decimal(n / 10).push(('0' as u32 + n % 10) as u32 as char),
{
}

/// A number in hexadecimal: its last digit stands behind the rest of it, and the digits
/// from ten on are the letters from A on.
pub proof fn law_hex(n: nat)
    ensures
        n < 10 ==> hex(n) == seq![('0' as u32 + n) as u32 as char],
        10 <= n < 16 ==> hex(n) == seq![('A' as u32 + (n - 10)) as u32 as char],
        n >= 16 ==> hex(n) == hex(n / 16) + hex(n % 16),
{
    if n >= 16 {
        assert(hex(n) =~= hex(n / 16) + hex(n % 16));
    }
}

/// The number that digits denote: one more digit makes it that many times larger and adds
/// the value of the digit. Letters count in either case, and what is no digit of the base
/// denotes nothing.
pub proof fn law_digits_value(s: Seq<char>, c: char, radix: nat)
    ensures
        digits_value(Seq::empty(), radix) == Some(0nat),
        digits_value(s.push(c), radix) == ({
            let d = if '0' <= c && c <= '9' {
                c as u32 - '0' as u32
            } else if 'A' <= c && c <= 'F' {
                c as u32 - 'A' as u32 + 10
            } else if 'a' <= c && c <= 'f' {
                c as u32 - 'a' as u32 + 10
            } else {
                radix as int
            };
            match digits_value(s, radix) {
                Some(h) => if d < radix {
                    Some(h * radix + d as nat)
                } else {
                    None
                },
                None => None,
            }
        }),
{
    assert(s.push(c).drop_last() =~= s);
}

/// A number is read where it is at least one digit, with one sign before it at most, and
/// within the bounds: a plus sign changes nothing, and a minus sign is for signed numbers
/// alone.
pub proof fn law_signs(s: Seq<char>, radix: nat, max: nat)
    ensures
        s.len() == 0 || (s[0] != '+' && s[0] != '-') ==> (unsigned(s, radix, max) == (
        if s.len() == 0 {
            None
        } else {
            match digits_value(s, radix) {
                Some(n) => if n <= max {
                    Some(n)
                } else {
                    None
                },
                None => None,
            }
        })) && signed(s, radix, max) == (match unsigned(s, radix, max) {
            Some(n) => Some(n as int),
            None => None,
        }),
        unsigned(seq!['+'] + s, radix, max) == (match digits_value(s, radix) {
            Some(n) => if s.len() > 0 && n <= max {
                Some(n)
            } else {
                None
            },
            None => None,
        }),
        signed(seq!['+'] + s, radix, max) == (match unsigned(seq!['+'] + s, radix, max) {
            Some(n) => Some(n as int),
            None => None,
        }),
        unsigned(seq!['-'] + s, radix, max) is None,
        signed(seq!['-'] + s, radix, max) == (match digits_value(s, radix) {
            Some(n) => if s.len() > 0 && n <= max + 1 {
                Some(-(n as int))
            } else {
                None
            },
            None => None,
        }),
{
    assert((seq!['+'] + s).skip(1) =~= s);
    assert((seq!['-'] + s).skip(1) =~= s);
    lemma_no_digit_in_front(seq!['-'] + s, radix);
}

/// What begins with a minus sign is no sequence of digits.
proof fn lemma_no_digit_in_front(s: Seq<char>, radix: nat)
    requires
        s.len() > 0,
        s[0] == '-',
    ensures
        digits_value(s, radix) is None,
    decreases s.len(),
{
    if s.len() > 1 {
        assert(s.drop_last()[0] == s[0]);
        lemma_no_digit_in_front(s.drop_last(), radix);
    }
}

// ---------------------------------------------------------------------------
// Functions
// ---------------------------------------------------------------------------

/// The character of the digit `d`.
fn to_digit_char(d: u8) -> (r: char)
    requires
        d < 16,
    ensures
        r == digit_char(d as nat),
{
    if d < 10 {
        (48 + d) as char
    } else {
        (55 + d) as char
    }
}

/// The value of `c` as a digit.
fn to_digit_value(c: char) -> (r: Option<u8>)
    ensures
        match r {
            Some(d) => digit_value(c) == Some(d as nat) && d < 16,
            None => digit_value(c) is None,
        },
{
    if '0' <= c && c <= '9' {
        Some(c as u8 - 48)
    } else if 'A' <= c && c <= 'F' {
        Some(c as u8 - 55)
    } else if 'a' <= c && c <= 'f' {
        Some(c as u8 - 87)
    } else {
        None
    }
}

/// The numeral of `n` in base `radix`.
fn numeral_chars(n: u64, radix: u64) -> (r: Vec<char>)
    requires
        2 <= radix <= 16,
    ensures
        r@ == numeral(n as nat, radix as nat),
    decreases n,
{
    if n < radix {
        let mut r: Vec<char> = Vec::new();
        r.push(to_digit_char(n as u8));
        r
    } else {
        proof {
            vstd::arithmetic::div_mod::lemma_div_decreases(n as int, radix as int);
        }
        let mut r: Vec<char> = numeral_chars(n / radix, radix);
        r.push(to_digit_char((n % radix) as u8));
        r
    }
}

/// `n` in decimal.
pub fn decimal_text(n: u64) -> (r: String)
    ensures
        r@ == decimal(n as nat),
{
    text::text_of(numeral_chars(n, 10).as_slice())
}

/// `n` in upper-case hexadecimal.
pub fn hex_text(n: usize) -> (r: String)
    ensures
        r@ == hex(n as nat),
{
    text::text_of(numeral_chars(n as u64, 16).as_slice())
}

/// The number up to `max` that the digits from index `from` on denote.
fn digits_from(s: &[char], from: usize, radix: u64, max: u64) -> (r: Option<u64>)
    requires
        from <= s@.len(),
        2 <= radix <= 16,
    ensures
        match r {
            Some(n) => digits_value(s@.skip(from as int), radix as nat) == Some(n as nat) && n
                <= max && from < s@.len(),
            None => from == s@.len() || digits_value(s@.skip(from as int), radix as nat) is None
                || digits_value(s@.skip(from as int), radix as nat).unwrap() > max,
        },
{
    let ghost t = s@.skip(from as int);
    let len: usize = s.len();
    if from == len {
        return None;
    }
    let mut n: u64 = 0;
    let mut i: usize = from;
    assert(t.take(0) =~= Seq::<char>::empty());
    while i < len
        invariant
            t == s@.skip(from as int),
            len == s@.len(),
            from <= i <= len,
            2 <= radix <= 16,
            n <= max,
            digits_value(t.take(i - from), radix as nat) == Some(n as nat),
        decreases len - i,
    {
        let ghost next = t.take(i - from + 1);
        proof {
            assert(next.drop_last() =~= t.take(i - from));
            assert(next.last() == s@[i as int]);
            if digits_value(t, radix as nat) is Some {
                lemma_digits_monotonic(t, i - from + 1, radix as nat);
            }
        }
        let d: u8 = match to_digit_value(s[i]) {
            Some(d) => d,
            None => {
                return None;
            },
        };
        if d as u64 >= radix {
            return None;
        }
        proof {
            assert(0 <= n * radix <= u64::MAX * 16) by (nonlinear_arith)
                requires
                    0 <= n <= u64::MAX,
                    0 <= radix <= 16,
            ;
        }
        let v: u128 = n as u128 * radix as u128 + d as u128;
        if v > max as u128 {
            return None;
        }
        n = v as u64;
        i += 1;
    }
    assert(t.take(len - from) =~= t);
    Some(n)
}

/// Reads an unsigned number up to `max`.
pub fn read_unsigned(s: &[char], radix: u64, max: u64) -> (r: Option<u64>)
    requires
        2 <= radix <= 16,
    ensures
        match r {
            Some(n) => unsigned(s@, radix as nat, max as nat) == Some(n as nat),
            None => unsigned(s@, radix as nat, max as nat) is None,
        },
{
    let from: usize = if s.len() > 0 && s[0] == '+' {
        1
    } else {
        0
    };
    assert(s@.skip(0) =~= s@);
    digits_from(s, from, radix, max)
}

/// Reads a signed number: its sign and its magnitude, the magnitude being up to
/// `max`, or `max + 1` behind a minus sign.
fn read_signed(s: &[char], radix: u64, max: u64) -> (r: Option<(bool, u64)>)
    requires
        2 <= radix <= 16,
        max < u64::MAX,
    ensures
        match r {
            Some((neg, n)) => signed(s@, radix as nat, max as nat) == Some(
                if neg {
                    -(n as int)
                } else {
                    n as int
                },
            ) && n <= max + 1 && (!neg ==> n <= max),
            None => signed(s@, radix as nat, max as nat) is None,
        },
{
    if s.len() > 0 && s[0] == '-' {
        match digits_from(s, 1, radix, max + 1) {
            Some(n) => Some((true, n)),
            None => None,
        }
    } else {
        match read_unsigned(s, radix, max) {
            Some(n) => Some((false, n)),
            None => None,
        }
    }
}

/// Reads a `u32` in decimal.
pub fn read_u32(s: &[char]) -> (r: Option<u32>)
    ensures
        match r {
            Some(n) => unsigned(s@, 10, u32::MAX as nat) == Some(n as nat),
            None => unsigned(s@, 10, u32::MAX as nat) is None,
        },
{
    match read_unsigned(s, 10, u32::MAX as u64) {
        Some(n) => Some(n as u32),
        None => None,
    }
}

/// Reads a `u64` in decimal.
pub fn read_u64(s: &[char]) -> (r: Option<u64>)
    ensures
        match r {
            Some(n) => unsigned(s@, 10, u64::MAX as nat) == Some(n as nat),
            None => unsigned(s@, 10, u64::MAX as nat) is None,
        },
{
    read_unsigned(s, 10, u64::MAX)
}

/// Reads a `usize` in hexadecimal.
pub fn read_hex_usize(s: &[char]) -> (r: Option<usize>)
    ensures
        match r {
            Some(n) => unsigned(s@, 16, usize::MAX as nat) == Some(n as nat),
            None => unsigned(s@, 16, usize::MAX as nat) is None,
        },
{
    match read_unsigned(s, 16, usize::MAX as u64) {
        Some(n) => Some(n as usize),
        None => None,
    }
}

/// Reads an `i32` in decimal.
pub fn read_i32(s: &[char]) -> (r: Option<i32>)
    ensures
        match r {
            Some(n) => signed(s@, 10, i32::MAX as nat) == Some(n as int),
            None => signed(s@, 10, i32::MAX as nat) is None,
        },
{
    match read_signed(s, 10, i32::MAX as u64) {
        Some((neg, n)) => {
            let v: i64 = n as i64;
            if neg {
                Some((-v) as i32)
            } else {
                Some(v as i32)
            }
        },
        None => None,
    }
}

/// Reads an `isize` in hexadecimal.
pub fn read_hex_isize(s: &[char]) -> (r: Option<isize>)
    ensures
        match r {
            Some(n) => signed(s@, 16, isize::MAX as nat) == Some(n as int),
            None => signed(s@, 16, isize::MAX as nat) is None,
        },
{
    match read_signed(s, 16, isize::MAX as u64) {
        Some((neg, n)) => {
            let v: i128 = n as i128;
            if neg {
                Some((-v) as isize)
            } else {
                Some(v as isize)
            }
        },
        None => None,
    }
}

} // verus!
