//! Numbers as text.

use vstd::prelude::*;

use crate::space::{all_in, all_within, Class};
use crate::text::{cat2, chars_of, slice_text};

pub mod laws;

verus! {

/// The digit that stands for a number below sixteen.
pub open spec fn digit(n: int) -> char {
    if n < 10 {
        (0x30 + n) as char
    } else {
        (0x61 + n - 10) as char
    }
}

/// A natural number written in a base between two and sixteen.
pub open spec fn digits(n: nat, base: nat) -> Seq<char>
    decreases n,
{
    if base < 2 || n < base {
        seq![digit(n as int)]
    } else {
        proof {
            assert(n / base < n) by (nonlinear_arith)
                requires
                    n > 0,
                    base >= 2,
            ;
        }
        digits(n / base, base).push(digit((n % base) as int))
    }
}

/// A natural number in decimal.
pub open spec fn dec(n: nat) -> Seq<char> {
    digits(n, 10)
}

/// An integer in decimal.
pub open spec fn dec_int(n: int) -> Seq<char> {
    if n < 0 {
        seq!['-'] + dec((-n) as nat)
    } else {
        dec(n as nat)
    }
}

/// `s` behind as many zeroes as bring it to a width.
pub open spec fn zero_padded(s: Seq<char>, width: nat) -> Seq<char>
    decreases width - s.len(),
{
    if s.len() >= width {
        s
    } else {
        zero_padded(seq!['0'] + s, width)
    }
}

/// A file mode: octal, in at least four digits.
pub open spec fn octal4(n: nat) -> Seq<char> {
    zero_padded(digits(n, 8), 4)
}

fn digit_char(n: u8) -> (r: char)
    requires
        n < 16,
    ensures
        r == digit(n as int),
{
    if n < 10 {
        let b: u8 = 0x30 + n;
        b as char
    } else {
        let b: u8 = 0x61 + (n - 10);
        b as char
    }
}

pub fn digits_of(n: u128, base: u128) -> (r: String)
    requires
        2 <= base <= 16,
    ensures
        r@ == digits(n as nat, base as nat),
    decreases n,
{
    if n < base {
        let mut out = String::new();
        out.push(digit_char(n as u8));
        assert(out@ =~= seq![digit(n as int)]);
        out
    } else {
        assert(n / base < n) by (nonlinear_arith)
            requires
                n > 0,
                base >= 2,
        ;
        let mut out = digits_of(n / base, base);
        out.push(digit_char((n % base) as u8));
        out
    }
}

pub fn dec_of(n: u128) -> (r: String)
    ensures
        r@ == dec(n as nat),
{
    digits_of(n, 10)
}

pub fn dec_int_of(n: i128) -> (r: String)
    ensures
        r@ == dec_int(n as int),
{
    if n < 0 {
        let m: u128 = if n == i128::MIN {
            0x8000_0000_0000_0000_0000_0000_0000_0000u128
        } else {
            (-n) as u128
        };
        assert(m == -n);
        let s = cat2("-", dec_of(m).as_str());
        proof {
            reveal_strlit("-");
            assert("-"@ =~= seq!['-']);
        }
        s
    } else {
        dec_of(n as u128)
    }
}

pub fn octal4_of(n: u32) -> (r: String)
    ensures
        r@ == octal4(n as nat),
{
    let mut out = digits_of(n as u128, 8);
    let mut len: usize = out.as_str().unicode_len();
    while len < 4
        invariant
            len == out@.len(),
            zero_padded(out@, 4) == octal4(n as nat),
        decreases 4 - len,
    {
        proof {
            reveal_strlit("0");
            assert("0"@ =~= seq!['0']);
        }
        out = cat2("0", out.as_str());
        len += 1;
    }
    out
}

/// The number that a run of decimal digits stands for.
pub open spec fn value_of(s: Seq<char>) -> nat
    decreases s.len(),
{
    if s.len() == 0 {
        0
    } else {
        value_of(s.drop_last()) * 10 + (s.last() as u32 - 0x30) as nat
    }
}

/// A non-empty run of decimal digits.
pub open spec fn is_number(s: Seq<char>) -> bool {
    s.len() > 0 && all_within(Class::Digit, s)
}

/// The number below a limit that a text of decimal digits stands for.
pub open spec fn parsed(s: Seq<char>, limit: nat) -> Option<nat> {
    if is_number(s) && value_of(s) <= limit {
        Some(value_of(s))
    } else {
        None
    }
}

proof fn value_grows(s: Seq<char>, i: int)
    requires
        0 <= i <= s.len(),
    ensures
        value_of(s.take(i)) <= value_of(s),
    decreases s.len() - i,
{
    if i < s.len() {
        value_grows(s, i + 1);
        assert(s.take(i + 1).drop_last() =~= s.take(i));
        assert(value_of(s.take(i + 1)) >= value_of(s.take(i)));
    } else {
        assert(s.take(i) =~= s);
    }
}

/// Reads a text of decimal digits as a number up to `limit`.
pub fn parse_digits(s: &str, limit: u64) -> (r: Option<u64>)
    ensures
        match r {
            Some(n) => parsed(s@, limit as nat) == Some(n as nat),
            None => parsed(s@, limit as nat) is None,
        },
{
    if s.is_empty() || !all_in(Class::Digit, s) {
        return None;
    }
    let a = chars_of(s);
    let mut total: u64 = 0;
    let mut i: usize = 0;
    while i < a.len()
        invariant
            a@ == s@,
            is_number(s@),
            i <= a@.len(),
            total == value_of(s@.take(i as int)),
            total <= limit,
        decreases a.len() - i,
    {
        assert(within_digit(s@[i as int])) by {
            assert(crate::space::within(Class::Digit, s@[i as int]));
        }
        let d: u64 = (a[i] as u32 - 0x30) as u64;
        let next: u128 = (total as u128) * 10 + (d as u128);
        proof {
            assert(s@.take(i + 1).drop_last() =~= s@.take(i as int));
            value_grows(s@, i + 1);
            assert(next == value_of(s@.take(i + 1)));
        }
        if next > limit as u128 {
            return None;
        }
        total = next as u64;
        i += 1;
    }
    assert(s@.take(i as int) =~= s@);
    Some(total)
}

spec fn within_digit(c: char) -> bool {
    0x30 <= c as u32 <= 0x39
}

/// The 64-bit integer that a text stands for: decimal digits, with or without a
/// sign before them.
pub open spec fn signed(s: Seq<char>) -> Option<int> {
    if s.len() > 0 && s[0] == '-' {
        match parsed(s.skip(1), 0x8000_0000_0000_0000) {
            Some(n) => Some(-(n as int)),
            None => None,
        }
    } else {
        match parsed(
            if s.len() > 0 && s[0] == '+' {
                s.skip(1)
            } else {
                s
            },
            0x7fff_ffff_ffff_ffff,
        ) {
            Some(n) => Some(n as int),
            None => None,
        }
    }
}

pub fn parse_i64(s: &str) -> (r: Option<i64>)
    ensures
        (match r {
            Some(n) => Some(n as int),
            None => None,
        }) == signed(s@),
{
    let a = chars_of(s);
    if a.len() > 0 && a[0] == '-' {
        let rest = slice_text(&a, 1, a.len());
        assert(rest@ =~= s@.skip(1));
        match parse_digits(rest.as_str(), 0x8000_0000_0000_0000) {
            Some(n) => if n == 0x8000_0000_0000_0000 {
                Some(i64::MIN)
            } else {
                Some(-(n as i64))
            },
            None => None,
        }
    } else if a.len() > 0 && a[0] == '+' {
        let rest = slice_text(&a, 1, a.len());
        assert(rest@ =~= s@.skip(1));
        match parse_digits(rest.as_str(), 0x7fff_ffff_ffff_ffff) {
            Some(n) => Some(n as i64),
            None => None,
        }
    } else {
        match parse_digits(s, 0x7fff_ffff_ffff_ffff) {
            Some(n) => Some(n as i64),
            None => None,
        }
    }
}

}
