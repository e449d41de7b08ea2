//! Character classes, trimming, words and lines.

use vstd::prelude::*;

use crate::text::{char_text, chars_of, slice_text, split, split_on, texts, texts_push};

pub mod laws;

verus! {

/// A set of characters.
#[derive(Clone, Copy)]
pub enum Class {
    /// The characters with the Unicode property `White_Space`.
    Space,
    /// White space, and the four ASCII separators `FS`, `GS`, `RS` and `US`.
    TextSpace,
    /// Space, tab, line feed, form feed and carriage return.
    AsciiSpace,
    /// The characters that end a line of text.
    Break,
    /// The ten decimal digits.
    Digit,
    /// Space and tab.
    Blank,
    /// The decimal digits and the point.
    Numeral,
    /// One character alone.
    One(char),
}

pub open spec fn is_white(c: char) -> bool {
    let n = c as u32;
    ||| 0x09 <= n <= 0x0d
    ||| n == 0x20
    ||| n == 0x85
    ||| n == 0xa0
    ||| n == 0x1680
    ||| 0x2000 <= n <= 0x200a
    ||| n == 0x2028
    ||| n == 0x2029
    ||| n == 0x202f
    ||| n == 0x205f
    ||| n == 0x3000
}

/// Whether a character belongs to a class.
pub open spec fn within(k: Class, c: char) -> bool {
    let n = c as u32;
    match k {
        Class::Space => is_white(c),
        Class::TextSpace => is_white(c) || 0x1c <= n <= 0x1f,
        Class::AsciiSpace => n == 0x20 || n == 0x09 || n == 0x0a || n == 0x0c || n == 0x0d,
        Class::Break => 0x0a <= n <= 0x0d || 0x1c <= n <= 0x1e || n == 0x85 || n == 0x2028 || n == 0x2029,
        Class::Digit => 0x30 <= n <= 0x39,
        Class::Blank => n == 0x20 || n == 0x09,
        Class::Numeral => 0x30 <= n <= 0x39 || n == 0x2e,
        Class::One(d) => c == d,
    }
}

impl Class {
    pub fn has(self, c: char) -> (r: bool)
        ensures
            r == within(self, c),
    {
        let n: u32 = c as u32;
        let white = (0x09 <= n && n <= 0x0d) || n == 0x20 || n == 0x85 || n == 0xa0 || n == 0x1680
            || (0x2000 <= n && n <= 0x200a) || n == 0x2028 || n == 0x2029 || n == 0x202f || n == 0x205f
            || n == 0x3000;
        match self {
            Class::Space => white,
            Class::TextSpace => white || (0x1c <= n && n <= 0x1f),
            Class::AsciiSpace => n == 0x20 || n == 0x09 || n == 0x0a || n == 0x0c || n == 0x0d,
            Class::Break => (0x0a <= n && n <= 0x0d) || (0x1c <= n && n <= 0x1e) || n == 0x85 || n == 0x2028
                || n == 0x2029,
            Class::Digit => 0x30 <= n && n <= 0x39,
            Class::Blank => n == 0x20 || n == 0x09,
            Class::Numeral => (0x30 <= n && n <= 0x39) || n == 0x2e,
            Class::One(d) => c == d,
        }
    }
}

/// Whether every character of a text belongs to a class.
pub open spec fn all_within(k: Class, s: Seq<char>) -> bool {
    forall|i: int| 0 <= i < s.len() ==> within(k, #[trigger] s[i])
}

pub fn all_in(k: Class, s: &str) -> (r: bool)
    ensures
        r == all_within(k, s@),
{
    let a = chars_of(s);
    let mut i: usize = 0;
    while i < a.len()
        invariant
            a@ == s@,
            i <= a@.len(),
            forall|j: int| 0 <= j < i ==> within(k, #[trigger] s@[j]),
        decreases a.len() - i,
    {
        if !k.has(a[i]) {
            assert(!within(k, s@[i as int]));
            return false;
        }
        i += 1;
    }
    true
}

// ---------------------------------------------------------------------------
// Trimming

/// `s` without the leading characters of a class.
pub open spec fn trim_start(k: Class, s: Seq<char>) -> Seq<char>
    decreases s.len(),
{
    if s.len() > 0 && within(k, s[0]) {
        trim_start(k, s.skip(1))
    } else {
        s
    }
}

/// `s` without the trailing characters of a class.
pub open spec fn trim_end(k: Class, s: Seq<char>) -> Seq<char>
    decreases s.len(),
{
    if s.len() > 0 && within(k, s.last()) {
        trim_end(k, s.drop_last())
    } else {
        s
    }
}

/// `s` without the leading and trailing characters of a class.
pub open spec fn trim(k: Class, s: Seq<char>) -> Seq<char> {
    trim_end(k, trim_start(k, s))
}

pub fn trim_start_of(k: Class, s: &str) -> (r: String)
    ensures
        r@ == trim_start(k, s@),
{
    let a = chars_of(s);
    let mut i: usize = 0;
    assert(a@.skip(0) =~= a@);
    while i < a.len() && k.has(a[i])
        invariant
            a@ == s@,
            i <= a@.len(),
            trim_start(k, a@.skip(i as int)) == trim_start(k, s@),
        decreases a.len() - i,
    {
        assert(a@.skip(i as int).skip(1) =~= a@.skip(i + 1));
        i += 1;
    }
    assert(a@.subrange(i as int, a@.len() as int) =~= a@.skip(i as int));
    slice_text(&a, i, a.len())
}

pub fn trim_end_of(k: Class, s: &str) -> (r: String)
    ensures
        r@ == trim_end(k, s@),
{
    let a = chars_of(s);
    let mut n: usize = a.len();
    assert(a@.take(n as int) =~= a@);
    while n > 0 && k.has(a[n - 1])
        invariant
            a@ == s@,
            n <= a@.len(),
            trim_end(k, a@.take(n as int)) == trim_end(k, s@),
        decreases n,
    {
        assert(a@.take(n as int).drop_last() =~= a@.take(n - 1));
        n -= 1;
    }
    assert(a@.subrange(0, n as int) =~= a@.take(n as int));
    slice_text(&a, 0, n)
}

pub fn trim_of(k: Class, s: &str) -> (r: String)
    ensures
        r@ == trim(k, s@),
{
    trim_end_of(k, trim_start_of(k, s).as_str())
}

// ---------------------------------------------------------------------------
// Words and lines

/// The position of the first character of a class, or the length.
pub open spec fn first_of(k: Class, s: Seq<char>) -> int
    decreases s.len(),
{
    if s.len() == 0 || within(k, s[0]) {
        0
    } else {
        1 + first_of(k, s.skip(1))
    }
}

pub proof fn first_of_bounds(k: Class, s: Seq<char>)
    ensures
        0 <= first_of(k, s) <= s.len(),
        first_of(k, s) < s.len() ==> within(k, s[first_of(k, s)]),
        forall|i: int| 0 <= i < first_of(k, s) ==> !within(k, #[trigger] s[i]),
    decreases s.len(),
{
    if s.len() == 0 || within(k, s[0]) {
    } else {
        first_of_bounds(k, s.skip(1));
        assert forall|i: int| 0 <= i < first_of(k, s) implies !within(k, #[trigger] s[i]) by {
            if i > 0 {
                assert(s[i] == s.skip(1)[i - 1]);
            }
        }
    }
}

pub proof fn trim_start_len(k: Class, s: Seq<char>)
    ensures
        trim_start(k, s).len() <= s.len(),
        trim_start(k, s).len() > 0 ==> !within(k, trim_start(k, s)[0]),
    decreases s.len(),
{
    if s.len() > 0 && within(k, s[0]) {
        trim_start_len(k, s.skip(1));
    }
}

/// The words of a text: the longest runs of characters outside a class.
pub open spec fn words(k: Class, s: Seq<char>) -> Seq<Seq<char>>
    decreases s.len(),
{
    let t = trim_start(k, s);
    let i = first_of(k, t);
    if t.len() == 0 || t.len() > s.len() || i <= 0 || i > t.len() {
        Seq::empty()
    } else {
        seq![t.take(i)] + words(k, t.skip(i))
    }
}

pub(crate) fn first_at(k: Class, a: &Vec<char>, from: usize) -> (r: usize)
    requires
        from <= a@.len(),
    ensures
        from <= r <= a@.len(),
        r - from == first_of(k, a@.skip(from as int)),
{
    let mut i: usize = from;
    while i < a.len() && !k.has(a[i])
        invariant
            from <= i <= a@.len(),
            first_of(k, a@.skip(from as int)) == i - from + first_of(k, a@.skip(i as int)),
        decreases a.len() - i,
    {
        assert(a@.skip(i as int).skip(1) =~= a@.skip(i + 1));
        i += 1;
    }
    i
}

pub fn words_of(k: Class, s: &str) -> (r: Vec<String>)
    ensures
        texts(r@) == words(k, s@),
{
    broadcast use texts_push;
    let a = chars_of(s);
    let mut out: Vec<String> = Vec::new();
    let mut pos: usize = 0;
    assert(a@.skip(0) =~= a@);
    while pos < a.len()
        invariant
            a@ == s@,
            pos <= a@.len(),
            texts(out@) + words(k, a@.skip(pos as int)) == words(k, s@),
        decreases a.len() - pos,
    {
        if k.has(a[pos]) {
            assert(a@.skip(pos as int).skip(1) =~= a@.skip(pos + 1));
            proof {
                words_skip(k, a@.skip(pos as int));
            }
            pos += 1;
        } else {
            let end = first_at(k, &a, pos);
            let ghost rest = a@.skip(pos as int);
            assert(trim_start(k, rest) == rest);
            assert(first_of(k, rest) > 0) by {
                first_of_bounds(k, rest.skip(1));
            }
            assert(a@.subrange(pos as int, end as int) =~= rest.take(end - pos));
            assert(a@.skip(end as int) =~= rest.skip(end - pos));
            out.push(slice_text(&a, pos, end));
            pos = end;
        }
    }
    assert(words(k, a@.skip(pos as int)) =~= Seq::empty());
    out
}

proof fn words_skip(k: Class, s: Seq<char>)
    requires
        s.len() > 0,
        within(k, s[0]),
    ensures
        words(k, s) == words(k, s.skip(1)),
{
    assert(trim_start(k, s) == trim_start(k, s.skip(1)));
    trim_start_len(k, s.skip(1));
    let t = trim_start(k, s);
    if t.len() > 0 {
        first_of_bounds(k, t);
    }
}

/// How many characters the line break at position `i` takes: a carriage return
/// and the line feed behind it are one break.
pub open spec fn break_width(s: Seq<char>, i: int) -> int {
    if s[i] == '\r' && i + 1 < s.len() && s[i + 1] == '\n' {
        2
    } else {
        1
    }
}

/// The lines of a text, with every kind of line break.
pub open spec fn text_lines(s: Seq<char>) -> Seq<Seq<char>>
    decreases s.len(),
{
    let i = first_of(Class::Break, s);
    if s.len() == 0 {
        Seq::empty()
    } else if i < 0 || i >= s.len() {
        seq![s]
    } else {
        seq![s.take(i)] + text_lines(s.skip(i + break_width(s, i)))
    }
}

/// A text without a line break in it.
pub open spec fn is_line(s: Seq<char>) -> bool {
    forall|i: int| 0 <= i < s.len() ==> !within(Class::Break, #[trigger] s[i])
}

/// What a text is split into at its line breaks has no line break in it.
pub proof fn lines_are_lines(s: Seq<char>)
    ensures
        forall|k: int| 0 <= k < text_lines(s).len() ==> is_line(#[trigger] text_lines(s)[k]),
    decreases s.len(),
{
    let i = first_of(Class::Break, s);
    first_of_bounds(Class::Break, s);
    if s.len() > 0 && i < s.len() {
        let rest = s.skip(i + break_width(s, i));
        lines_are_lines(rest);
        assert forall|k: int| 0 <= k < text_lines(s).len() implies is_line(#[trigger] text_lines(s)[k]) by {
            if k > 0 {
                assert(text_lines(s)[k] == text_lines(rest)[k - 1]);
            }
        }
    }
}

pub fn text_lines_of(s: &str) -> (r: Vec<String>)
    ensures
        texts(r@) == text_lines(s@),
{
    broadcast use texts_push;
    let a = chars_of(s);
    let mut out: Vec<String> = Vec::new();
    let mut pos: usize = 0;
    assert(a@.skip(0) =~= a@);
    while pos < a.len()
        invariant
            a@ == s@,
            pos <= a@.len(),
            texts(out@) + text_lines(a@.skip(pos as int)) == text_lines(s@),
        decreases a.len() - pos,
    {
        let end = first_at(Class::Break, &a, pos);
        let ghost rest = a@.skip(pos as int);
        out.push(slice_text(&a, pos, end));
        if end >= a.len() {
            assert(a@.subrange(pos as int, end as int) =~= rest);
            return out;
        }
        assert(a@.subrange(pos as int, end as int) =~= rest.take(end - pos));
        let width: usize = if a[end] == '\r' && end + 1 < a.len() && a[end + 1] == '\n' {
            2
        } else {
            1
        };
        assert(width == break_width(rest, end - pos));
        assert(a@.skip(end + width) =~= rest.skip(end - pos + width));
        pos = end + width;
    }
    out
}

/// `line` without one trailing carriage return.
pub open spec fn without_return(line: Seq<char>) -> Seq<char> {
    if line.len() > 0 && line.last() == '\r' {
        line.drop_last()
    } else {
        line
    }
}

/// The lines of a text that end in a line feed or in a carriage return and a
/// line feed. The end of the text ends a last line that is not empty.
pub open spec fn feed_lines(s: Seq<char>) -> Seq<Seq<char>> {
    let parts = split(s, seq!['\n']);
    let full = Seq::new((parts.len() - 1) as nat, |i: int| without_return(parts[i]));
    if parts.last().len() == 0 {
        full
    } else {
        full.push(parts.last())
    }
}

pub fn feed_lines_of(s: &str) -> (r: Vec<String>)
    ensures
        texts(r@) == feed_lines(s@),
{
    broadcast use texts_push;
    let parts = split_on(s, char_text('\n').as_str());
    let ghost p = texts(parts@);
    let mut out: Vec<String> = Vec::new();
    let mut i: usize = 0;
    let last: usize = parts.len() - 1;
    while i < last
        invariant
            i <= last,
            last + 1 == parts.len(),
            p == texts(parts@),
            texts(out@) == Seq::new(i as nat, |j: int| without_return(p[j])),
        decreases last - i,
    {
        let ghost before = out@;
        let a = chars_of(parts[i].as_str());
        assert(a@ == p[i as int]);
        if a.len() > 0 && a[a.len() - 1] == '\r' {
            let n: usize = a.len() - 1;
            assert(a@.subrange(0, n as int) =~= a@.drop_last());
            let kept = slice_text(&a, 0, n);
            out.push(kept);
            assert(texts(out@) == texts(before).push(without_return(p[i as int])));
        } else {
            out.push(parts[i].clone());
            assert(texts(out@) == texts(before).push(without_return(p[i as int])));
        }
        i += 1;
        assert(texts(out@) =~= Seq::new(i as nat, |j: int| without_return(p[j])));
    }
    assert(p[p.len() - 1] == parts@[i as int]@);
    if !parts[i].as_str().is_empty() {
        out.push(parts[i].clone());
    }
    out
}

/// The lines of a text, each with the line feed that ends it.
pub open spec fn pieces(s: Seq<char>) -> Seq<Seq<char>>
    decreases s.len(),
{
    let i = first_of(Class::One('\n'), s);
    if s.len() == 0 {
        Seq::empty()
    } else if i < 0 || i >= s.len() {
        seq![s]
    } else {
        seq![s.take(i + 1)] + pieces(s.skip(i + 1))
    }
}

pub fn pieces_of(s: &str) -> (r: Vec<String>)
    ensures
        texts(r@) == pieces(s@),
{
    broadcast use texts_push;
    let a = chars_of(s);
    let mut out: Vec<String> = Vec::new();
    let mut pos: usize = 0;
    assert(a@.skip(0) =~= a@);
    while pos < a.len()
        invariant
            a@ == s@,
            pos <= a@.len(),
            texts(out@) + pieces(a@.skip(pos as int)) == pieces(s@),
        decreases a.len() - pos,
    {
        let end = first_at(Class::One('\n'), &a, pos);
        let ghost rest = a@.skip(pos as int);
        if end >= a.len() {
            out.push(slice_text(&a, pos, a.len()));
            assert(a@.subrange(pos as int, a@.len() as int) =~= rest);
            return out;
        }
        let ghost before = texts(out@);
        out.push(slice_text(&a, pos, end + 1));
        assert(a@.subrange(pos as int, end + 1) =~= rest.take(end - pos + 1));
        assert(texts(out@) =~= before.push(rest.take(end - pos + 1)));
        assert(a@.skip(end + 1) =~= rest.skip(end - pos + 1));
        pos = end + 1;
        assert(texts(out@) + pieces(a@.skip(pos as int)) =~= before + pieces(rest));
    }
    out
}

// ---------------------------------------------------------------------------
// Letters

/// A letter of a text that is to be told from ASCII words without regard to
/// case. Outside ASCII, KELVIN SIGN alone has a lower-case form that is one
/// ASCII letter.
pub open spec fn fold_char(c: char) -> char {
    let n = c as u32;
    if 0x41 <= n <= 0x5a {
        (n + 32) as char
    } else if n == 0x212a {
        'k'
    } else {
        c
    }
}

/// A text with its letters folded.
pub open spec fn fold(s: Seq<char>) -> Seq<char> {
    Seq::new(s.len(), |i: int| fold_char(s[i]))
}

fn fold_letter(c: char) -> (r: char)
    ensures
        r == fold_char(c),
{
    let n: u32 = c as u32;
    if 0x41 <= n && n <= 0x5a {
        let b: u8 = (n as u8) + 32;
        b as char
    } else if n == 0x212a {
        'k'
    } else {
        c
    }
}

pub fn fold_of(s: &str) -> (r: String)
    ensures
        r@ == fold(s@),
{
    let a = chars_of(s);
    let mut out = String::new();
    let mut i: usize = 0;
    while i < a.len()
        invariant
            a@ == s@,
            i <= a@.len(),
            out@ == fold(s@).take(i as int),
        decreases a.len() - i,
    {
        out.push(fold_letter(a[i]));
        i += 1;
        assert(fold(s@).take(i as int) =~= fold(s@).take(i - 1).push(fold(s@)[i - 1]));
    }
    assert(fold(s@).take(i as int) =~= fold(s@));
    out
}

}
