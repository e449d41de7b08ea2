//! What numbers in texts promise: what is written is read back.

use vstd::prelude::*;

use crate::number::{dec, dec_int, digit, digits, is_number, octal4, parsed, signed, value_of, zero_padded};
use crate::space::{within, Class};

verus! {

/// A number that is written in decimal is made of digits, has no needless zero at its
/// front, and stands for itself.
pub proof fn a_written_number(n: nat)
    ensures
        is_number(dec(n)),
        value_of(dec(n)) == n,
        n > 0 ==> dec(n)[0] != '0',
        n == 0 ==> dec(n) == seq!['0'],
    decreases n,
{
    let s = dec(n);
    if n < 10 {
        assert(s =~= seq![digit(n as int)]);
        assert(s.drop_last() =~= Seq::empty());
        assert(value_of(s.drop_last()) == 0);
        assert(within(Class::Digit, s[0]));
    } else {
        a_written_number(n / 10);
        let less = dec(n / 10);
        assert(s =~= less.push(digit((n % 10) as int)));
        assert(s.drop_last() =~= less);
        assert(forall|i: int| 0 <= i < less.len() ==> #[trigger] s[i] == less[i]);
        assert(within(Class::Digit, s.last()));
        assert forall|i: int| 0 <= i < s.len() implies within(Class::Digit, #[trigger] s[i]) by {
            if i < less.len() {
                assert(within(Class::Digit, less[i]));
            }
        }
    }
}

/// A number that is written is read back, up to the limit.
pub proof fn what_is_written_is_read(n: nat, limit: nat)
    ensures
        n <= limit ==> parsed(dec(n), limit) == Some(n),
        n > limit ==> parsed(dec(n), limit) is None,
{
    a_written_number(n);
}

/// The same with a sign, in the range of 64 bits.
pub proof fn signs_are_read(n: int)
    ensures
        -0x8000_0000_0000_0000 <= n <= 0x7fff_ffff_ffff_ffff ==> signed(dec_int(n)) == Some(n),
        n > 0x7fff_ffff_ffff_ffff || n < -0x8000_0000_0000_0000 ==> signed(dec_int(n)) is None,
{
    let s = dec_int(n);
    if n < 0 {
        a_written_number((-n) as nat);
        assert(s.skip(1) =~= dec((-n) as nat));
    } else {
        a_written_number(n as nat);
        assert(within(Class::Digit, s[0]));
    }
}

/// Different numbers are written differently.
pub proof fn numbers_are_told_apart(a: nat, b: nat)
    ensures
        dec(a) == dec(b) ==> a == b,
{
    a_written_number(a);
    a_written_number(b);
}

/// A file mode has at least four digits, with zeros at its front.
pub proof fn modes_have_four_digits(n: nat)
    ensures
        octal4(n).len() >= 4,
        n < 8 ==> octal4(n) == seq!['0', '0', '0', digit(n as int)],
        8 <= n < 64 ==> octal4(n) == seq!['0', '0', digit((n / 8) as int), digit((n % 8) as int)],
        64 <= n < 512 ==> octal4(n) == seq![
            '0',
            digit((n / 64) as int),
            digit(((n / 8) % 8) as int),
            digit((n % 8) as int),
        ],
{
    reveal_with_fuel(digits, 4);
    reveal_with_fuel(zero_padded, 5);
    padding_fills(digits(n, 8), 4);
    if n < 8 {
        assert(octal4(n) =~= seq!['0', '0', '0', digit(n as int)]);
    } else if n < 64 {
        assert(octal4(n) =~= seq!['0', '0', digit((n / 8) as int), digit((n % 8) as int)]);
    } else if n < 512 {
        assert((n / 8) / 8 == n / 64);
        assert(octal4(n) =~= seq!['0', digit((n / 64) as int), digit(((n / 8) % 8) as int), digit((n % 8) as int)]);
    }
}

proof fn padding_fills(s: Seq<char>, width: nat)
    ensures
        zero_padded(s, width).len() >= width,
    decreases width - s.len(),
{
    if s.len() < width {
        padding_fills(seq!['0'] + s, width);
    }
}

} // verus!
