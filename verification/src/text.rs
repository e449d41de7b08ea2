//! Text as sequences of characters: the string operations the modules share,
//! each stated over `Seq<char>`.

use vstd::prelude::*;

pub mod laws;

verus! {

/// `String::push` appends one character to the end of the string.
pub assume_specification[ String::push ](s: &mut String, c: char)
    ensures
        final(s)@ == old(s)@.push(c),
;

/// The texts that a list of strings holds.
pub open spec fn texts(v: Seq<String>) -> Seq<Seq<char>> {
    Seq::new(v.len(), |i: int| v[i]@)
}

pub broadcast proof fn texts_push(v: Seq<String>, x: String)
    ensures
        #[trigger] texts(v.push(x)) == texts(v).push(x@),
{
    assert(texts(v.push(x)) =~= texts(v).push(x@));
}

/// The text behind an optional string.
pub open spec fn opt_text(o: Option<String>) -> Option<Seq<char>> {
    match o {
        Some(s) => Some(s@),
        None => None,
    }
}

// ---------------------------------------------------------------------------
// Building text

pub fn cat2(a: &str, b: &str) -> (r: String)
    ensures
        r@ == a@ + b@,
{
    let mut out = a.to_owned();
    out.append(b);
    out
}

pub fn cat3(a: &str, b: &str, c: &str) -> (r: String)
    ensures
        r@ == a@ + b@ + c@,
{
    let mut out = cat2(a, b);
    out.append(c);
    out
}

pub fn cat4(a: &str, b: &str, c: &str, d: &str) -> (r: String)
    ensures
        r@ == a@ + b@ + c@ + d@,
{
    let mut out = cat3(a, b, c);
    out.append(d);
    out
}

pub fn cat5(a: &str, b: &str, c: &str, d: &str, e: &str) -> (r: String)
    ensures
        r@ == a@ + b@ + c@ + d@ + e@,
{
    let mut out = cat4(a, b, c, d);
    out.append(e);
    out
}

pub fn cat6(a: &str, b: &str, c: &str, d: &str, e: &str, f: &str) -> (r: String)
    ensures
        r@ == a@ + b@ + c@ + d@ + e@ + f@,
{
    let mut out = cat5(a, b, c, d, e);
    out.append(f);
    out
}

pub fn cat7(a: &str, b: &str, c: &str, d: &str, e: &str, f: &str, g: &str) -> (r: String)
    ensures
        r@ == a@ + b@ + c@ + d@ + e@ + f@ + g@,
{
    let mut out = cat6(a, b, c, d, e, f);
    out.append(g);
    out
}

/// The characters of a text, one by one.
pub fn chars_of(s: &str) -> (r: Vec<char>)
    ensures
        r@ == s@,
{
    let mut out: Vec<char> = Vec::new();
    for c in it: s.chars()
        invariant
            out@ == it.seq().take(it.index()),
    {
        out.push(c);
    }
    out
}

/// The characters `from..to` of a list of characters, as text.
pub fn slice_text(chars: &Vec<char>, from: usize, to: usize) -> (r: String)
    requires
        from <= to <= chars@.len(),
    ensures
        r@ == chars@.subrange(from as int, to as int),
{
    let mut out = String::new();
    let mut i: usize = from;
    while i < to
        invariant
            from <= i <= to <= chars@.len(),
            out@ == chars@.subrange(from as int, i as int),
        decreases to - i,
    {
        out.push(chars[i]);
        i += 1;
        assert(chars@.subrange(from as int, i as int) =~= chars@.subrange(from as int, i - 1).push(chars@[i - 1]));
    }
    out
}

/// A text of one character.
pub fn char_text(c: char) -> (r: String)
    ensures
        r@ == seq![c],
{
    let mut out = String::new();
    out.push(c);
    assert(out@ =~= seq![c]);
    out
}

/// Whether two texts are the same.
pub fn same(a: &str, b: &str) -> (r: bool)
    ensures
        r == (a@ == b@),
{
    a.to_owned() == b.to_owned()
}

/// A copy of a list of strings.
pub fn copy_strings(v: &Vec<String>) -> (r: Vec<String>)
    ensures
        r@ == v@,
{
    let mut out: Vec<String> = Vec::new();
    let mut i: usize = 0;
    while i < v.len()
        invariant
            i <= v@.len(),
            out@ == v@.subrange(0, i as int),
        decreases v.len() - i,
    {
        out.push(v[i].clone());
        i += 1;
        assert(v@.subrange(0, i as int) =~= v@.subrange(0, i - 1).push(v@[i - 1]));
    }
    assert(v@.subrange(0, v@.len() as int) =~= v@);
    out
}

/// Whether a list of strings holds a text.
pub fn has_text(v: &Vec<String>, s: &str) -> (r: bool)
    ensures
        r == texts(v@).contains(s@),
{
    let mut i: usize = 0;
    while i < v.len()
        invariant
            i <= v@.len(),
            forall|j: int| 0 <= j < i ==> texts(v@)[j] != s@,
        decreases v.len() - i,
    {
        if same(v[i].as_str(), s) {
            assert(texts(v@)[i as int] == s@);
            return true;
        }
        i += 1;
    }
    false
}

// ---------------------------------------------------------------------------
// Finding

/// Whether `pat` stands in `s` at position `i`.
pub open spec fn stands_at(s: Seq<char>, pat: Seq<char>, i: int) -> bool {
    0 <= i && i + pat.len() <= s.len() && s.subrange(i, i + pat.len()) == pat
}

/// The first position at or after `from` where `pat` stands in `s`.
pub open spec fn find_from(s: Seq<char>, pat: Seq<char>, from: int) -> Option<int>
    decreases s.len() + 1 - from,
{
    if from < 0 || from + pat.len() > s.len() {
        None
    } else if stands_at(s, pat, from) {
        Some(from)
    } else {
        find_from(s, pat, from + 1)
    }
}

/// The first position where `pat` stands in `s`.
pub open spec fn find(s: Seq<char>, pat: Seq<char>) -> Option<int> {
    find_from(s, pat, 0)
}

pub open spec fn holds(s: Seq<char>, pat: Seq<char>) -> bool {
    find(s, pat) is Some
}

pub open spec fn starts(s: Seq<char>, pat: Seq<char>) -> bool {
    stands_at(s, pat, 0)
}

pub open spec fn ends(s: Seq<char>, pat: Seq<char>) -> bool {
    stands_at(s, pat, s.len() - pat.len())
}

/// A found position is one where the pattern stands, and no earlier one is.
pub proof fn find_from_is_first(s: Seq<char>, pat: Seq<char>, from: int)
    requires
        0 <= from,
    ensures
        match find_from(s, pat, from) {
            Some(i) => from <= i && stands_at(s, pat, i) && forall|j: int|
                from <= j < i ==> !stands_at(s, pat, j),
            None => forall|j: int| from <= j ==> !stands_at(s, pat, j),
        },
    decreases s.len() + 1 - from,
{
    if from + pat.len() > s.len() {
    } else if stands_at(s, pat, from) {
    } else {
        find_from_is_first(s, pat, from + 1);
    }
}

/// A text contains a pattern when the pattern stands somewhere in it.
pub proof fn has_is_somewhere(s: Seq<char>, pat: Seq<char>)
    ensures
        holds(s, pat) <==> exists|i: int| stands_at(s, pat, i),
{
    find_from_is_first(s, pat, 0);
    if holds(s, pat) {
        assert(stands_at(s, pat, find(s, pat)->0));
    }
}

pub(crate) fn at(s: &Vec<char>, pat: &Vec<char>, i: usize) -> (r: bool)
    ensures
        r == stands_at(s@, pat@, i as int),
{
    if pat.len() > s.len() || i > s.len() - pat.len() {
        return false;
    }
    let mut j: usize = 0;
    while j < pat.len()
        invariant
            i + pat.len() <= s.len(),
            j <= pat.len(),
            forall|k: int| 0 <= k < j ==> s@[i + k] == pat@[k],
        decreases pat.len() - j,
    {
        if s[i + j] != pat[j] {
            assert(s@.subrange(i as int, i + pat@.len())[j as int] != pat@[j as int]);
            return false;
        }
        j += 1;
    }
    assert(s@.subrange(i as int, i + pat@.len()) =~= pat@);
    true
}

fn find_at(s: &Vec<char>, pat: &Vec<char>, from: usize) -> (r: Option<usize>)
    requires
        from <= s@.len(),
    ensures
        match r {
            Some(i) => find_from(s@, pat@, from as int) == Some(i as int) && from <= i && i + pat@.len() <= s@.len(),
            None => find_from(s@, pat@, from as int) is None,
        },
{
    let mut i: usize = from;
    while i < s.len()
        invariant
            from <= i <= s@.len(),
            find_from(s@, pat@, from as int) == find_from(s@, pat@, i as int),
        decreases s.len() - i,
    {
        if at(s, pat, i) {
            return Some(i);
        }
        i += 1;
    }
    if pat.len() == 0 {
        assert(s@.subrange(i as int, i as int) =~= pat@);
        Some(i)
    } else {
        None
    }
}

/// Whether `pat` stands anywhere in `s`.
pub fn contains(s: &str, pat: &str) -> (r: bool)
    ensures
        r == holds(s@, pat@),
{
    find_at(&chars_of(s), &chars_of(pat), 0).is_some()
}

pub fn starts_with(s: &str, pat: &str) -> (r: bool)
    ensures
        r == starts(s@, pat@),
{
    at(&chars_of(s), &chars_of(pat), 0)
}

pub fn ends_with(s: &str, pat: &str) -> (r: bool)
    ensures
        r == ends(s@, pat@),
{
    let a = chars_of(s);
    let b = chars_of(pat);
    if b.len() > a.len() {
        return false;
    }
    at(&a, &b, a.len() - b.len())
}

// ---------------------------------------------------------------------------
// Splitting and joining

/// The parts of `s` between the occurrences of a non-empty `sep`.
pub open spec fn split(s: Seq<char>, sep: Seq<char>) -> Seq<Seq<char>>
    decreases s.len(),
{
    match find(s, sep) {
        Some(i) => if sep.len() > 0 && i >= 0 && i + sep.len() <= s.len() {
            seq![s.take(i)] + split(s.skip(i + sep.len()), sep)
        } else {
            seq![s]
        },
        None => seq![s],
    }
}

/// `parts` with `sep` between them.
pub open spec fn join(parts: Seq<Seq<char>>, sep: Seq<char>) -> Seq<char>
    decreases parts.len(),
{
    if parts.len() == 0 {
        Seq::empty()
    } else if parts.len() == 1 {
        parts[0]
    } else {
        join(parts.drop_last(), sep) + sep + parts.last()
    }
}

/// `s` with every occurrence of `from` replaced by `to`.
pub open spec fn replaced(s: Seq<char>, from: Seq<char>, to: Seq<char>) -> Seq<char> {
    join(split(s, from), to)
}

proof fn find_from_shift(s: Seq<char>, pat: Seq<char>, base: int, from: int)
    requires
        0 <= base <= s.len(),
        0 <= from,
    ensures
        find_from(s, pat, base + from) == (match find_from(s.skip(base), pat, from) {
            Some(i) => Some(i + base),
            None => None,
        }),
    decreases s.len() + 1 - base - from,
{
    let t = s.skip(base);
    if base + from + pat.len() > s.len() {
    } else {
        assert(s.subrange(base + from, base + from + pat.len()) =~= t.subrange(from, from + pat.len()));
        if !stands_at(s, pat, base + from) {
            find_from_shift(s, pat, base, from + 1);
        }
    }
}

/// The parts of `s` between the occurrences of `sep`.
pub fn split_on(s: &str, sep: &str) -> (r: Vec<String>)
    requires
        sep@.len() > 0,
    ensures
        texts(r@) == split(s@, sep@),
        r@.len() > 0,
{
    broadcast use texts_push;
    let a = chars_of(s);
    let b = chars_of(sep);
    let mut out: Vec<String> = Vec::new();
    let mut pos: usize = 0;
    assert(s@.skip(0) =~= s@);
    loop
        invariant
            a@ == s@,
            b@ == sep@,
            b@.len() > 0,
            pos <= a@.len(),
            texts(out@) + split(a@.skip(pos as int), b@) == split(s@, sep@),
        decreases a.len() - pos,
    {
        proof {
            find_from_shift(a@, b@, pos as int, 0);
        }
        match find_at(&a, &b, pos) {
            Some(i) => {
                let ghost rest = a@.skip(pos as int);
                out.push(slice_text(&a, pos, i));
                assert(a@.subrange(pos as int, i as int) =~= rest.take(i - pos));
                assert(a@.skip(i + b@.len()) =~= rest.skip(i - pos + b@.len()));
                pos = i + b.len();
            },
            None => {
                out.push(slice_text(&a, pos, a.len()));
                assert(a@.subrange(pos as int, a@.len() as int) =~= a@.skip(pos as int));
                return out;
            },
        }
    }
}

/// `parts` with `sep` between them.
pub fn join_with(parts: &Vec<String>, sep: &str) -> (r: String)
    ensures
        r@ == join(texts(parts@), sep@),
{
    let mut out = String::new();
    let mut i: usize = 0;
    while i < parts.len()
        invariant
            i <= parts@.len(),
            out@ == join(texts(parts@).take(i as int), sep@),
        decreases parts.len() - i,
    {
        if i > 0 {
            out.append(sep);
        }
        out.append(parts[i].as_str());
        i += 1;
        let ghost t = texts(parts@).take(i as int);
        assert(t.drop_last() =~= texts(parts@).take(i - 1));
        assert(i == 1 ==> out@ =~= t[0]);
    }
    assert(texts(parts@).take(parts@.len() as int) =~= texts(parts@));
    out
}

/// `s` with every occurrence of `from` replaced by `to`.
pub fn replace(s: &str, from: &str, to: &str) -> (r: String)
    requires
        from@.len() > 0,
    ensures
        r@ == replaced(s@, from@, to@),
{
    join_with(&split_on(s, from), to)
}

/// The last position where the character `c` stands in `s`.
pub open spec fn rfind(s: Seq<char>, c: char) -> Option<int>
    decreases s.len(),
{
    if s.len() == 0 {
        None
    } else if s.last() == c {
        Some(s.len() - 1)
    } else {
        rfind(s.drop_last(), c)
    }
}

/// What stands before and after the last `c` in `s`.
pub open spec fn rsplit_once(s: Seq<char>, c: char) -> Option<(Seq<char>, Seq<char>)> {
    match rfind(s, c) {
        Some(i) => Some((s.take(i), s.skip(i + 1))),
        None => None,
    }
}

/// What stands before and after the first `sep` in `s`.
pub open spec fn split_once(s: Seq<char>, sep: Seq<char>) -> Option<(Seq<char>, Seq<char>)> {
    match find(s, sep) {
        Some(i) => Some((s.take(i), s.skip(i + sep.len()))),
        None => None,
    }
}

pub open spec fn pair_texts(p: Option<(String, String)>) -> Option<(Seq<char>, Seq<char>)> {
    match p {
        Some(p) => Some((p.0@, p.1@)),
        None => None,
    }
}

pub fn rsplit_at(s: &str, c: char) -> (r: Option<(String, String)>)
    ensures
        pair_texts(r) == rsplit_once(s@, c),
{
    let a = chars_of(s);
    let mut n: usize = a.len();
    assert(a@.take(n as int) =~= a@);
    while n > 0
        invariant
            a@ == s@,
            n <= a@.len(),
            rfind(a@.take(n as int), c) == rfind(s@, c),
        decreases n,
    {
        if a[n - 1] == c {
            let head = slice_text(&a, 0, n - 1);
            let tail = slice_text(&a, n, a.len());
            assert(a@.subrange(0, n - 1) =~= a@.take(n - 1));
            assert(a@.subrange(n as int, a@.len() as int) =~= a@.skip(n as int));
            return Some((head, tail));
        }
        n -= 1;
        assert(a@.take(n + 1).drop_last() =~= a@.take(n as int));
    }
    None
}

pub fn split_at_first(s: &str, sep: &str) -> (r: Option<(String, String)>)
    ensures
        pair_texts(r) == split_once(s@, sep@),
{
    let a = chars_of(s);
    let b = chars_of(sep);
    match find_at(&a, &b, 0) {
        Some(i) => {
            assert(i + b.len() <= a.len());
            let head = slice_text(&a, 0, i);
            let tail = slice_text(&a, i + b.len(), a.len());
            assert(a@.subrange(0, i as int) =~= a@.take(i as int));
            assert(a@.subrange(i + b@.len(), a@.len() as int) =~= a@.skip(i + b@.len()));
            Some((head, tail))
        },
        None => None,
    }
}

/// What stands before the first separator, or the whole text.
pub open spec fn head(s: Seq<char>, sep: Seq<char>) -> Seq<char> {
    match split_once(s, sep) {
        Some((before, _)) => before,
        None => s,
    }
}

pub fn head_of(s: &str, sep: &str) -> (r: String)
    ensures
        r@ == head(s@, sep@),
{
    match split_at_first(s, sep) {
        Some((before, _)) => before,
        None => s.to_owned(),
    }
}

/// What stands behind a text that another begins with.
pub open spec fn behind(s: Seq<char>, prefix: Seq<char>) -> Option<Seq<char>> {
    if starts(s, prefix) {
        Some(s.skip(prefix.len() as int))
    } else {
        None
    }
}

pub fn strip_prefix(s: &str, prefix: &str) -> (r: Option<String>)
    ensures
        opt_text(r) == behind(s@, prefix@),
{
    let a = chars_of(s);
    let b = chars_of(prefix);
    if at(&a, &b, 0) {
        let rest = slice_text(&a, b.len(), a.len());
        assert(rest@ =~= s@.skip(b@.len() as int));
        Some(rest)
    } else {
        None
    }
}

// ---------------------------------------------------------------------------
// Lists

/// A list with items put before it, where there is one.
pub open spec fn prepend<T>(head: Seq<T>, r: Result<Seq<T>, Seq<char>>) -> Result<Seq<T>, Seq<char>> {
    match r {
        Ok(rest) => Ok(head + rest),
        Err(e) => Err(e),
    }
}

pub proof fn prepend_empty<T>(r: Result<Seq<T>, Seq<char>>)
    ensures
        prepend(Seq::empty(), r) == r,
{
    match r {
        Ok(rest) => assert(Seq::<T>::empty() + rest =~= rest),
        Err(_) => {},
    }
}

pub proof fn prepend_push<T>(head: Seq<T>, x: T, r: Result<Seq<T>, Seq<char>>)
    ensures
        prepend(head.push(x), r) == prepend(head, prepend(seq![x], r)),
{
    match r {
        Ok(rest) => assert(head.push(x) + rest =~= head + (seq![x] + rest)),
        Err(_) => {},
    }
}

pub fn argv1(a: &str) -> (r: Vec<String>)
    ensures
        texts(r@) == seq![a@],
{
    let mut out: Vec<String> = Vec::new();
    out.push(a.to_owned());
    assert(texts(out@) =~= seq![a@]);
    out
}

pub fn argv2(a: &str, b: &str) -> (r: Vec<String>)
    ensures
        texts(r@) == seq![a@, b@],
{
    let mut out: Vec<String> = Vec::new();
    out.push(a.to_owned());
    out.push(b.to_owned());
    assert(texts(out@) =~= seq![a@, b@]);
    out
}

pub fn argv3(a: &str, b: &str, c: &str) -> (r: Vec<String>)
    ensures
        texts(r@) == seq![a@, b@, c@],
{
    let mut out: Vec<String> = Vec::new();
    out.push(a.to_owned());
    out.push(b.to_owned());
    out.push(c.to_owned());
    assert(texts(out@) =~= seq![a@, b@, c@]);
    out
}

pub fn argv4(a: &str, b: &str, c: &str, d: &str) -> (r: Vec<String>)
    ensures
        texts(r@) == seq![a@, b@, c@, d@],
{
    let mut out: Vec<String> = Vec::new();
    out.push(a.to_owned());
    out.push(b.to_owned());
    out.push(c.to_owned());
    out.push(d.to_owned());
    assert(texts(out@) =~= seq![a@, b@, c@, d@]);
    out
}

pub fn argv5(a: &str, b: &str, c: &str, d: &str, e: &str) -> (r: Vec<String>)
    ensures
        texts(r@) == seq![a@, b@, c@, d@, e@],
{
    let mut out: Vec<String> = Vec::new();
    out.push(a.to_owned());
    out.push(b.to_owned());
    out.push(c.to_owned());
    out.push(d.to_owned());
    out.push(e.to_owned());
    assert(texts(out@) =~= seq![a@, b@, c@, d@, e@]);
    out
}

pub fn argv6(a: &str, b: &str, c: &str, d: &str, e: &str, f: &str) -> (r: Vec<String>)
    ensures
        texts(r@) == seq![a@, b@, c@, d@, e@, f@],
{
    let mut out: Vec<String> = Vec::new();
    out.push(a.to_owned());
    out.push(b.to_owned());
    out.push(c.to_owned());
    out.push(d.to_owned());
    out.push(e.to_owned());
    out.push(f.to_owned());
    assert(texts(out@) =~= seq![a@, b@, c@, d@, e@, f@]);
    out
}

/// Puts texts behind others.
pub fn append_texts(a: &mut Vec<String>, b: &Vec<String>)
    ensures
        texts(final(a)@) == texts(old(a)@) + texts(b@),
{
    let ghost first = texts(a@);
    let ghost all = texts(b@);
    let mut i: usize = 0;
    assert(texts(a@) =~= first + all.take(0));
    while i < b.len()
        invariant
            i <= b@.len(),
            all == texts(b@),
            texts(a@) == first + all.take(i as int),
        decreases b.len() - i,
    {
        assert(all[i as int] == b@[i as int]@);
        let ghost before = texts(a@);
        a.push(b[i].clone());
        assert(texts(a@) =~= before.push(all[i as int]));
        i += 1;
        assert(all.take(i as int) =~= all.take(i - 1).push(all[i - 1]));
        assert(texts(a@) =~= first + all.take(i as int));
    }
    assert(all.take(i as int) =~= all);
}

/// What is joined begins with the first part, and goes on with the others joined.
pub proof fn join_from_front(parts: Seq<Seq<char>>, sep: Seq<char>)
    requires
        parts.len() > 1,
    ensures
        join(parts, sep) == parts[0] + sep + join(parts.skip(1), sep),
    decreases parts.len(),
{
    if parts.len() == 2 {
        assert(join(parts.drop_last(), sep) == parts[0]);
        assert(join(parts.skip(1), sep) == parts[1]);
    } else {
        join_from_front(parts.drop_last(), sep);
        assert(parts.drop_last().skip(1) =~= parts.skip(1).drop_last());
        assert(join(parts, sep) =~= parts[0] + sep + join(parts.skip(1), sep));
    }
}

}
