//! What trimming and folding promise.

use vstd::prelude::*;

use crate::space::{first_of, fold, pieces, trim, trim_end, trim_start, within, words, Class};

verus! {

/// What is trimmed off a text stands at its ends and is of the class; what is left
/// begins and ends with something else.
pub proof fn what_is_trimmed(k: Class, s: Seq<char>) -> (r: (Seq<char>, Seq<char>))
    ensures
        s == r.0 + trim(k, s) + r.1,
        forall|i: int| 0 <= i < r.0.len() ==> within(k, #[trigger] r.0[i]),
        forall|i: int| 0 <= i < r.1.len() ==> within(k, #[trigger] r.1[i]),
        trim(k, s).len() > 0 ==> !within(k, trim(k, s)[0]) && !within(k, trim(k, s).last()),
{
    let front = trimmed_front(k, s);
    let rest = trim_start(k, s);
    let back = trimmed_back(k, rest);
    assert(s =~= front + trim(k, s) + back);
    if trim(k, s).len() > 0 {
        assert(rest[0] == trim(k, s)[0]);
    }
    (front, back)
}

proof fn trimmed_front(k: Class, s: Seq<char>) -> (r: Seq<char>)
    ensures
        s == r + trim_start(k, s),
        forall|i: int| 0 <= i < r.len() ==> within(k, #[trigger] r[i]),
        trim_start(k, s).len() > 0 ==> !within(k, trim_start(k, s)[0]),
    decreases s.len(),
{
    if s.len() > 0 && within(k, s[0]) {
        let more = trimmed_front(k, s.skip(1));
        let r = seq![s[0]] + more;
        assert(s =~= seq![s[0]] + s.skip(1));
        assert(s =~= r + trim_start(k, s));
        r
    } else {
        assert(s =~= Seq::<char>::empty() + s);
        Seq::empty()
    }
}

proof fn trimmed_back(k: Class, s: Seq<char>) -> (r: Seq<char>)
    ensures
        s == trim_end(k, s) + r,
        forall|i: int| 0 <= i < r.len() ==> within(k, #[trigger] r[i]),
        trim_end(k, s).len() > 0 ==> !within(k, trim_end(k, s).last()),
    decreases s.len(),
{
    if s.len() > 0 && within(k, s.last()) {
        let more = trimmed_back(k, s.drop_last());
        let r = more.push(s.last());
        assert(s =~= s.drop_last().push(s.last()));
        assert(s =~= trim_end(k, s) + r);
        r
    } else {
        assert(s =~= s + Seq::<char>::empty());
        Seq::empty()
    }
}

/// Trimming and folding twice is trimming and folding once.
pub proof fn once_is_enough(k: Class, s: Seq<char>)
    ensures
        trim(k, trim(k, s)) == trim(k, s),
        fold(fold(s)) == fold(s),
{
    let _ = what_is_trimmed(k, s);
    assert(fold(fold(s)) =~= fold(s));
}

/// All texts of a list, one behind the other.
pub open spec fn flat(list: Seq<Seq<char>>) -> Seq<char>
    decreases list.len(),
{
    if list.len() == 0 {
        Seq::empty()
    } else {
        list[0] + flat(list.skip(1))
    }
}

proof fn where_a_class_begins(k: Class, s: Seq<char>)
    ensures
        0 <= first_of(k, s) <= s.len(),
        forall|i: int| 0 <= i < first_of(k, s) ==> !within(k, #[trigger] s[i]),
        first_of(k, s) < s.len() ==> within(k, s[first_of(k, s)]),
    decreases s.len(),
{
    if s.len() > 0 && !within(k, s[0]) {
        where_a_class_begins(k, s.skip(1));
        assert forall|i: int| 0 <= i < first_of(k, s) implies !within(k, #[trigger] s[i]) by {
            if i > 0 {
                assert(s[i] == s.skip(1)[i - 1]);
            }
        }
    }
}

/// A text is its lines, each with the line feed that ends it: none is empty, and a line
/// feed stands nowhere but at an end.
pub proof fn lines_make_up_the_text(s: Seq<char>)
    ensures
        flat(pieces(s)) == s,
        forall|i: int| 0 <= i < pieces(s).len() ==> (#[trigger] pieces(s)[i]).len() > 0,
        forall|i: int, j: int|
            0 <= i < pieces(s).len() && 0 <= j < pieces(s)[i].len() - 1 ==> #[trigger] pieces(s)[i][j] != '\n',
        forall|i: int| 0 <= i < pieces(s).len() - 1 ==> (#[trigger] pieces(s)[i]).last() == '\n',
    decreases s.len(),
{
    where_a_class_begins(Class::One('\n'), s);
    let i = first_of(Class::One('\n'), s);
    if s.len() == 0 {
        assert(flat(pieces(s)) =~= s);
    } else if i >= s.len() {
        assert(pieces(s) =~= seq![s]);
        assert(seq![s].skip(1) =~= Seq::empty());
        reveal_with_fuel(flat, 2);
        assert(flat(pieces(s)) =~= s);
    } else {
        let rest = s.skip(i + 1);
        lines_make_up_the_text(rest);
        let all = pieces(s);
        assert(all =~= seq![s.take(i + 1)] + pieces(rest));
        assert(all.skip(1) =~= pieces(rest));
        assert(flat(all) =~= s);
        assert forall|a: int| 0 <= a < all.len() implies (#[trigger] all[a]).len() > 0 by {
            if a > 0 {
                assert(all[a] == pieces(rest)[a - 1]);
            }
        }
        assert forall|a: int, b: int| 0 <= a < all.len() && 0 <= b < all[a].len() - 1 implies #[trigger] all[a][b] != '\n' by {
            if a > 0 {
                assert(all[a] == pieces(rest)[a - 1]);
                assert(pieces(rest)[a - 1][b] != '\n');
            } else {
                assert(all[0][b] == s[b]);
            }
        }
        assert forall|a: int| 0 <= a < all.len() - 1 implies (#[trigger] all[a]).last() == '\n' by {
            if a > 0 {
                assert(all[a] == pieces(rest)[a - 1]);
            } else {
                assert(all[0].last() == s[i]);
            }
        }
    }
}

/// A word has something in it, and nothing of the class that parts it from others.
pub proof fn what_a_word_is(k: Class, s: Seq<char>)
    ensures
        forall|i: int| 0 <= i < words(k, s).len() ==> (#[trigger] words(k, s)[i]).len() > 0,
        forall|i: int, j: int|
            0 <= i < words(k, s).len() && 0 <= j < words(k, s)[i].len() ==> !within(k, #[trigger] words(k, s)[i][j]),
        words(k, s).len() == 0 ==> forall|i: int| 0 <= i < s.len() ==> within(k, #[trigger] s[i]),
    decreases s.len(),
{
    let t = trim_start(k, s);
    let front = trimmed_front(k, s);
    where_a_class_begins(k, t);
    let n = first_of(k, t);
    if t.len() > 0 {
        let rest = t.skip(n);
        what_a_word_is(k, rest);
        let all = words(k, s);
        assert(all =~= seq![t.take(n)] + words(k, rest));
        assert forall|i: int| 0 <= i < all.len() implies (#[trigger] all[i]).len() > 0 by {
            if i > 0 {
                assert(all[i] == words(k, rest)[i - 1]);
            }
        }
        assert forall|i: int, j: int| 0 <= i < all.len() && 0 <= j < all[i].len() implies !within(k, #[trigger] all[i][j]) by {
            if i > 0 {
                assert(all[i] == words(k, rest)[i - 1]);
                assert(!within(k, words(k, rest)[i - 1][j]));
            } else {
                assert(all[0][j] == t[j]);
            }
        }
    } else {
        assert(s =~= front);
    }
}

/// A word in front of a space is the first, and the rest is dealt with alike.
pub proof fn the_first_word(k: Class, word: Seq<char>, gap: char, rest: Seq<char>)
    requires
        word.len() > 0,
        forall|i: int| 0 <= i < word.len() ==> !within(k, #[trigger] word[i]),
        within(k, gap),
    ensures
        words(k, word + seq![gap] + rest) == seq![word] + words(k, seq![gap] + rest),
        words(k, seq![gap] + rest) == words(k, rest),
        words(k, word) == seq![word],
{
    let s = word + seq![gap] + rest;
    assert(s[0] == word[0]);
    where_a_class_begins(k, s);
    let n = first_of(k, s);
    if n < word.len() {
        assert(s[n] == word[n]);
    }
    if n > word.len() {
        assert(s[word.len() as int] == gap);
    }
    assert(s.take(n) =~= word);
    assert(s.skip(n) =~= seq![gap] + rest);
    let g = seq![gap] + rest;
    assert(g.skip(1) =~= rest);
    where_a_class_begins(k, word);
    if first_of(k, word) < word.len() {
        assert(!within(k, word[first_of(k, word)]));
    }
    assert(word.take(word.len() as int) =~= word);
    assert(word.skip(word.len() as int) =~= Seq::empty());
    assert(words(k, Seq::empty()) =~= Seq::empty());
    gap_is_passed(k, g, rest);
}

proof fn gap_is_passed(k: Class, g: Seq<char>, rest: Seq<char>)
    requires
        g.len() > 0,
        within(k, g[0]),
        g.skip(1) == rest,
    ensures
        words(k, g) == words(k, rest),
{
    assert(trim_start(k, g) == trim_start(k, rest));
    let t = trim_start(k, rest);
    let front = trimmed_front(k, rest);
    where_a_class_begins(k, t);
}

} // verus!
