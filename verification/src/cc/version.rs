//! Versions of up to four numbers.

use std::cmp::Ordering;

use vstd::prelude::*;

use crate::number::{dec, dec_of, parse_digits, parse_i64, parsed, signed};
use crate::show::{quoted, repr_str};
use crate::space::{trim, trim_of, within, Class};
use crate::text::{
    behind, cat2, cat3, chars_of, contains, ends, ends_with, holds, replace, replaced, split, split_on, starts,
    starts_with, strip_prefix, texts,
};

verus! {

/// A version. A number that is not given is below all that are, so that of two
/// versions which agree as far as the shorter goes the longer one is larger.
#[derive(Debug, Clone, Copy, PartialEq, Eq, Structural)]
pub struct Version {
    pub major: i64,
    pub minor: i64,
    pub patch: i64,
    pub rev: i64,
}

/// Whether a version comes before another: by its first number that differs.
pub open spec fn older(a: Version, b: Version) -> bool {
    ||| a.major < b.major
    ||| a.major == b.major && a.minor < b.minor
    ||| a.major == b.major && a.minor == b.minor && a.patch < b.patch
    ||| a.major == b.major && a.minor == b.minor && a.patch == b.patch && a.rev < b.rev
}

impl PartialOrd for Version {
    fn partial_cmp(&self, other: &Version) -> (r: Option<Ordering>) {
        let less = self.major < other.major || (self.major == other.major && (self.minor < other.minor || (self.minor
            == other.minor && (self.patch < other.patch || (self.patch == other.patch && self.rev < other.rev)))));
        if less {
            Some(Ordering::Less)
        } else if self.major == other.major && self.minor == other.minor && self.patch == other.patch && self.rev
            == other.rev {
            Some(Ordering::Equal)
        } else {
            Some(Ordering::Greater)
        }
    }
}

impl vstd::std_specs::cmp::PartialOrdSpecImpl for Version {
    open spec fn obeys_partial_cmp_spec() -> bool {
        true
    }

    open spec fn partial_cmp_spec(&self, other: &Version) -> Option<Ordering> {
        if older(*self, *other) {
            Some(Ordering::Less)
        } else if *self == *other {
            Some(Ordering::Equal)
        } else {
            Some(Ordering::Greater)
        }
    }
}

/// Whether a version comes before another.
pub fn is_older(a: Version, b: Version) -> (r: bool)
    ensures
        r == older(a, b),
{
    a.major < b.major || (a.major == b.major && (a.minor < b.minor || (a.minor == b.minor && (a.patch < b.patch || (
    a.patch == b.patch && a.rev < b.rev)))))
}

/// The number at a place, or the one that stands for none.
pub open spec fn number_or_none(numbers: Seq<i64>, i: int) -> i64 {
    if i < numbers.len() {
        numbers[i]
    } else {
        (-1) as i64
    }
}

/// The version of numbers.
pub open spec fn version_of(numbers: Seq<i64>) -> Version {
    Version {
        major: number_or_none(numbers, 0),
        minor: number_or_none(numbers, 1),
        patch: number_or_none(numbers, 2),
        rev: number_or_none(numbers, 3),
    }
}

fn number_at(numbers: &Vec<i64>, i: usize) -> (r: i64)
    ensures
        r == number_or_none(numbers@, i as int),
{
    if i < numbers.len() {
        numbers[i]
    } else {
        -1
    }
}

fn make_version(numbers: &Vec<i64>) -> (r: Version)
    ensures
        r == version_of(numbers@),
{
    Version {
        major: number_at(numbers, 0),
        minor: number_at(numbers, 1),
        patch: number_at(numbers, 2),
        rev: number_at(numbers, 3),
    }
}

/// What is said of too many numbers.
pub open spec fn too_many(n: nat) -> Seq<char> {
    "Version.__new__() takes from 1 to 5 positional arguments but "@ + dec(n + 1) + " were given"@
}

fn too_many_of(n: usize) -> (r: String)
    ensures
        r@ == too_many(n as nat),
{
    cat3(
        "Version.__new__() takes from 1 to 5 positional arguments but ",
        dec_of(n as u128 + 1).as_str(),
        " were given",
    )
}

pub open spec fn version_result(r: Result<Version, String>) -> Result<Version, Seq<char>> {
    match r {
        Ok(v) => Ok(v),
        Err(e) => Err(e@),
    }
}

// ---------------------------------------------------------------------------
// Strict reading

/// The numbers that texts stand for, behind others.
pub open spec fn numbers_in(parts: Seq<Seq<char>>, out: Seq<i64>) -> Result<Seq<i64>, Seq<char>>
    decreases parts.len(),
{
    if parts.len() == 0 {
        Ok(out)
    } else {
        match signed(parts[0]) {
            Some(n) => numbers_in(parts.skip(1), out.push(n as i64)),
            None => Err("invalid literal for int() with base 10: "@ + quoted(parts[0])),
        }
    }
}

/// The version that a text stands for: up to four numbers with points between
/// them.
pub open spec fn version_text(text: Seq<char>) -> Result<Version, Seq<char>> {
    let parts = split(text, "."@);
    if parts.len() > 4 {
        Err(too_many(parts.len()))
    } else {
        match numbers_in(parts, Seq::empty()) {
            Ok(numbers) => Ok(version_of(numbers)),
            Err(e) => Err(e),
        }
    }
}

impl Version {
    /// A version of three numbers.
    pub fn new(major: i64, minor: i64, patch: i64) -> (r: Self)
        ensures
            r == (Version { major, minor, patch, rev: (-1) as i64 }),
    {
        Version { major, minor, patch, rev: -1 }
    }

    pub fn from_str(text: &str) -> (r: Result<Self, String>)
        ensures
            version_result(r) == version_text(text@),
    {
        proof {
            reveal_strlit(".");
        }
        let parts = split_on(text, ".");
        let ghost all = texts(parts@);
        assert(all.len() == parts@.len());
        if parts.len() > 4 {
            return Err(too_many_of(parts.len()));
        }
        let mut numbers: Vec<i64> = Vec::new();
        let mut i: usize = 0;
        assert(all.skip(0) =~= all);
        while i < parts.len()
            invariant
                i <= parts@.len(),
                all == texts(parts@),
                all == split(text@, "."@),
                all.len() <= 4,
                numbers_in(all.skip(i as int), numbers@) == numbers_in(all, Seq::empty()),
            decreases parts.len() - i,
        {
            assert(all.skip(i as int)[0] == parts@[i as int]@);
            assert(all.skip(i as int).skip(1) =~= all.skip(i + 1));
            match parse_i64(parts[i].as_str()) {
                Some(n) => numbers.push(n),
                None => return Err(
                    cat2("invalid literal for int() with base 10: ", repr_str(parts[i].as_str()).as_str()),
                ),
            }
            i += 1;
        }
        Ok(make_version(&numbers))
    }
}

// ---------------------------------------------------------------------------
// Lenient reading

/// Digits that may have single underscores between them.
pub open spec fn spaced_digits(s: Seq<char>) -> bool {
    &&& s.len() > 0
    &&& !starts(s, "_"@)
    &&& !ends(s, "_"@)
    &&& !holds(s, "__"@)
    &&& forall|i: int| 0 <= i < s.len() ==> within(Class::Digit, #[trigger] s[i]) || s[i] == '_'
}

fn are_spaced_digits(s: &str) -> (r: bool)
    ensures
        r == spaced_digits(s@),
{
    let a = chars_of(s);
    if a.len() == 0 || starts_with(s, "_") || ends_with(s, "_") || contains(s, "__") {
        return false;
    }
    let mut i: usize = 0;
    while i < a.len()
        invariant
            i <= a@.len(),
            a@ == s@,
            forall|j: int| 0 <= j < i ==> within(Class::Digit, #[trigger] a@[j]) || a@[j] == '_',
        decreases a.len() - i,
    {
        if !(Class::Digit.has(a[i]) || a[i] == '_') {
            return false;
        }
        i += 1;
    }
    true
}

/// A number with a sign or without, space around it, and single underscores
/// between its digits.
pub open spec fn lenient(text: Seq<char>) -> Option<int> {
    let trimmed = trim(Class::AsciiSpace, text);
    let negative = starts(trimmed, "-"@);
    let digits = match behind(trimmed, "-"@) {
        Some(rest) => rest,
        None => match behind(trimmed, "+"@) {
            Some(rest) => rest,
            None => trimmed,
        },
    };
    if !spaced_digits(digits) {
        None
    } else {
        match parsed(replaced(digits, "_"@, ""@), 0x7fff_ffff_ffff_ffff) {
            Some(n) => Some(
                if negative {
                    -(n as int)
                } else {
                    n as int
                },
            ),
            None => None,
        }
    }
}

pub fn py_int(text: &str) -> (r: Option<i64>)
    ensures
        (match r {
            Some(n) => Some(n as int),
            None => None,
        }) == lenient(text@),
{
    let trimmed = trim_of(Class::AsciiSpace, text);
    let trimmed = trimmed.as_str();
    let negative = starts_with(trimmed, "-");
    let digits = match strip_prefix(trimmed, "-") {
        Some(rest) => rest,
        None => match strip_prefix(trimmed, "+") {
            Some(rest) => rest,
            None => trimmed.to_owned(),
        },
    };
    if !are_spaced_digits(digits.as_str()) {
        return None;
    }
    proof {
        reveal_strlit("_");
    }
    match parse_digits(replace(digits.as_str(), "_", "").as_str(), 0x7fff_ffff_ffff_ffff) {
        Some(n) => if negative {
            Some(-(n as i64))
        } else {
            Some(n as i64)
        },
        None => None,
    }
}

/// The numbers that texts stand for, read leniently, behind others.
pub open spec fn lenient_numbers(parts: Seq<Seq<char>>, out: Seq<i64>) -> Result<Seq<i64>, Seq<char>>
    decreases parts.len(),
{
    if parts.len() == 0 {
        Ok(out)
    } else {
        match lenient(parts[0]) {
            Some(n) => lenient_numbers(parts.skip(1), out.push(n as i64)),
            None => Err("invalid literal for int() with base 10: '"@ + parts[0] + "'"@),
        }
    }
}

/// The version that a text stands for, read leniently.
pub open spec fn lenient_version(text: Seq<char>) -> Result<Version, Seq<char>> {
    match lenient_numbers(split(text, "."@), Seq::empty()) {
        Err(e) => Err(e),
        Ok(numbers) => if numbers.len() > 4 {
            Err(too_many(numbers.len()))
        } else {
            Ok(version_of(numbers))
        },
    }
}

pub fn read_version(text: &str) -> (r: Result<Version, String>)
    ensures
        version_result(r) == lenient_version(text@),
{
    proof {
        reveal_strlit(".");
    }
    let parts = split_on(text, ".");
    let ghost all = texts(parts@);
    let mut numbers: Vec<i64> = Vec::new();
    let mut i: usize = 0;
    assert(all.skip(0) =~= all);
    while i < parts.len()
        invariant
            i <= parts@.len(),
            all == texts(parts@),
            all == split(text@, "."@),
            lenient_numbers(all.skip(i as int), numbers@) == lenient_numbers(all, Seq::empty()),
        decreases parts.len() - i,
    {
        assert(all.skip(i as int)[0] == parts@[i as int]@);
        assert(all.skip(i as int).skip(1) =~= all.skip(i + 1));
        match py_int(parts[i].as_str()) {
            Some(n) => numbers.push(n),
            None => return Err(cat3("invalid literal for int() with base 10: '", parts[i].as_str(), "'")),
        }
        i += 1;
    }
    if numbers.len() > 4 {
        return Err(too_many_of(numbers.len()));
    }
    Ok(make_version(&numbers))
}

// ---------------------------------------------------------------------------
// Laws

/// Of two versions exactly one comes first, unless they are the same.
pub proof fn versions_are_ordered(a: Version, b: Version)
    ensures
        older(a, b) || older(b, a) || a == b,
        !(older(a, b) && older(b, a)),
        !older(a, a),
{
}

/// The order of versions passes on.
pub proof fn order_passes_on(a: Version, b: Version, c: Version)
    requires
        older(a, b),
        older(b, c),
    ensures
        older(a, c),
{
}

/// A version comes before each longer one that begins with the same numbers.
pub proof fn more_specific_is_larger(numbers: Seq<i64>, next: i64)
    requires
        1 <= numbers.len() <= 3,
        next >= 0,
    ensures
        older(version_of(numbers), version_of(numbers.push(next))),
{
}

/// The numbers of a version are at their places; what is not there is minus one.
pub proof fn numbers_have_their_places(numbers: Seq<i64>)
    ensures
        numbers.len() > 0 ==> version_of(numbers).major == numbers[0],
        numbers.len() > 1 ==> version_of(numbers).minor == numbers[1],
        numbers.len() > 2 ==> version_of(numbers).patch == numbers[2],
        numbers.len() > 3 ==> version_of(numbers).rev == numbers[3],
        numbers.len() <= 1 ==> version_of(numbers).minor == -1,
        numbers.len() <= 2 ==> version_of(numbers).patch == -1,
        numbers.len() <= 3 ==> version_of(numbers).rev == -1,
{
}

/// Each part of a text between points is a number of the version.
pub proof fn each_part_is_a_number(parts: Seq<Seq<char>>, out: Seq<i64>)
    ensures
        numbers_in(parts, out) is Ok ==> (numbers_in(parts, out)->Ok_0).len() == out.len() + parts.len()
            && numbers_in(parts, out)->Ok_0.take(out.len() as int) == out && forall|i: int|
            0 <= i < parts.len() ==> signed(#[trigger] parts[i]) == Some(
                numbers_in(parts, out)->Ok_0[out.len() + i] as int,
            ),
        (forall|i: int| 0 <= i < parts.len() ==> signed(#[trigger] parts[i]) is Some) ==> numbers_in(parts, out) is Ok,
    decreases parts.len(),
{
    if parts.len() > 0 {
        if signed(parts[0]) is Some {
            let n = signed(parts[0])->0;
            let next = out.push(n as i64);
            each_part_is_a_number(parts.skip(1), next);
            if numbers_in(parts, out) is Ok {
                let all = numbers_in(parts, out)->Ok_0;
                assert(all.take(out.len() as int) =~= all.take(next.len() as int).take(out.len() as int));
                assert(next.take(out.len() as int) =~= out);
                assert forall|i: int| 0 <= i < parts.len() implies signed(#[trigger] parts[i]) == Some(
                    all[out.len() + i] as int,
                ) by {
                    if i > 0 {
                        assert(parts.skip(1)[i - 1] == parts[i]);
                        assert(next.len() + (i - 1) == out.len() + i);
                    } else {
                        assert(all[out.len() as int] == all.take(next.len() as int)[out.len() as int]);
                    }
                }
            }
            if forall|i: int| 0 <= i < parts.len() ==> signed(#[trigger] parts[i]) is Some {
                assert forall|i: int| 0 <= i < parts.skip(1).len() implies signed(#[trigger] parts.skip(1)[i]) is Some by {
                    assert(parts.skip(1)[i] == parts[i + 1]);
                }
            }
        }
    } else {
        assert(out.take(out.len() as int) =~= out);
    }
}

/// A text with more than three points is no version.
pub proof fn at_most_four_numbers(text: Seq<char>)
    ensures
        split(text, "."@).len() > 4 ==> version_text(text) is Err && lenient_version(text) is Err,
        version_text(text) is Ok ==> signed(split(text, "."@)[0]) == Some((version_text(text)->Ok_0).major as int),
{
    let parts = split(text, "."@);
    reveal_strlit(".");
    crate::text::laws::pieces_make_up_the_text(text, "."@);
    each_part_is_a_number(parts, Seq::empty());
    each_part_is_read_leniently(parts, Seq::empty());
    if version_text(text) is Ok {
        assert(signed(parts[0]) == Some(numbers_in(parts, Seq::empty())->Ok_0[0] as int));
    }
}

proof fn each_part_is_read_leniently(parts: Seq<Seq<char>>, out: Seq<i64>)
    ensures
        lenient_numbers(parts, out) is Ok ==> (lenient_numbers(parts, out)->Ok_0).len() == out.len() + parts.len(),
    decreases parts.len(),
{
    if parts.len() > 0 && lenient(parts[0]) is Some {
        each_part_is_read_leniently(parts.skip(1), out.push(lenient(parts[0])->0 as i64));
    }
}

/// Plain digits are read leniently as what they stand for, and a sign before them turns
/// them round.
pub proof fn digits_are_read_leniently(n: nat)
    requires
        n <= 0x7fff_ffff_ffff_ffff,
    ensures
        lenient(crate::number::dec(n)) == Some(n as int),
        lenient("-"@ + crate::number::dec(n)) == Some(-(n as int)),
        lenient("+"@ + crate::number::dec(n)) == Some(n as int),
{
    reveal_strlit("-");
    reveal_strlit("+");
    reveal_strlit("_");
    reveal_strlit("__");
    let d = crate::number::dec(n);
    crate::number::laws::a_written_number(n);
    digits_alone(d);
    let a = "-"@ + d;
    let b = "+"@ + d;
    assert(within(Class::Digit, d[0]) && within(Class::Digit, d.last()));
    assert(a[0] == '-' && b[0] == '+' && a.last() == d.last() && b.last() == d.last());
    crate::text::laws::the_rest_stands_behind(a, "-"@, d);
    crate::text::laws::the_rest_stands_behind(b, "+"@, d);
    if starts(d, "-"@) {
        assert(d.subrange(0, 1)[0] == '-');
    }
    if starts(d, "+"@) {
        assert(d.subrange(0, 1)[0] == '+');
    }
    if starts(b, "-"@) {
        assert(b.subrange(0, 1)[0] == '-');
    }
}

proof fn digits_alone(d: Seq<char>)
    requires
        crate::number::is_number(d),
    ensures
        spaced_digits(d),
        replaced(d, "_"@, ""@) == d,
{
    reveal_strlit("_");
    reveal_strlit("__");
    assert forall|i: int| !crate::text::stands_at(d, "_"@, i) by {
        if crate::text::stands_at(d, "_"@, i) {
            assert(d.subrange(i, i + 1)[0] == '_');
            assert(within(Class::Digit, d[i]));
        }
    }
    assert forall|i: int| !crate::text::stands_at(d, "__"@, i) by {
        if crate::text::stands_at(d, "__"@, i) {
            assert(d.subrange(i, i + 2)[0] == '_');
            assert(within(Class::Digit, d[i]));
        }
    }
    crate::text::has_is_somewhere(d, "__"@);
    crate::text::has_is_somewhere(d, "_"@);
    assert(split(d, "_"@) =~= seq![d]);
    assert(seq![d].drop_last() =~= Seq::empty());
    reveal_with_fuel(crate::text::join, 2);
    assert(crate::text::join(seq![d], ""@) =~= d);
}

} // verus!
