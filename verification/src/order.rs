//! The order of texts.

use vstd::prelude::*;

use crate::text::{chars_of, same, texts};

verus! {

/// Whether a text comes before another: by the first character in which they
/// differ, and a text comes before what it begins.
pub open spec fn before(a: Seq<char>, b: Seq<char>) -> bool
    decreases a.len(),
{
    if b.len() == 0 {
        false
    } else if a.len() == 0 {
        true
    } else if a[0] != b[0] {
        (a[0] as int) < (b[0] as int)
    } else {
        before(a.skip(1), b.skip(1))
    }
}

fn code(c: char) -> (r: u32)
    ensures
        r == c as int,
{
    c as u32
}

pub fn is_before(a: &str, b: &str) -> (r: bool)
    ensures
        r == before(a@, b@),
{
    let x = chars_of(a);
    let y = chars_of(b);
    let mut i: usize = 0;
    assert(x@.skip(0) =~= x@);
    assert(y@.skip(0) =~= y@);
    while i < x.len() && i < y.len()
        invariant
            x@ == a@,
            y@ == b@,
            i <= x@.len(),
            i <= y@.len(),
            before(x@.skip(i as int), y@.skip(i as int)) == before(a@, b@),
        decreases x.len() - i,
    {
        assert(x@.skip(i as int).skip(1) =~= x@.skip(i + 1));
        assert(y@.skip(i as int).skip(1) =~= y@.skip(i + 1));
        if x[i] != y[i] {
            return code(x[i]) < code(y[i]);
        }
        i += 1;
    }
    i < y.len()
}

/// No text comes before itself.
pub proof fn before_irreflexive(a: Seq<char>)
    ensures
        !before(a, a),
    decreases a.len(),
{
    if a.len() > 0 {
        before_irreflexive(a.skip(1));
    }
}

/// Of two different texts one comes before the other.
pub proof fn before_total(a: Seq<char>, b: Seq<char>)
    ensures
        a == b || before(a, b) || before(b, a),
    decreases a.len(),
{
    if a.len() > 0 && b.len() > 0 {
        if a[0] == b[0] {
            before_total(a.skip(1), b.skip(1));
            if a.skip(1) == b.skip(1) {
                assert(a =~= seq![a[0]] + a.skip(1));
                assert(b =~= seq![b[0]] + b.skip(1));
                assert(a == b);
            }
        }
    } else if a.len() == 0 && b.len() == 0 {
        assert(a =~= b);
    }
}

pub proof fn before_transitive(a: Seq<char>, b: Seq<char>, c: Seq<char>)
    requires
        before(a, b),
        before(b, c),
    ensures
        before(a, c),
    decreases a.len(),
{
    if a.len() > 0 && b.len() > 0 && c.len() > 0 && a[0] == b[0] && b[0] == c[0] {
        before_transitive(a.skip(1), b.skip(1), c.skip(1));
    }
}

/// Texts in order, none twice.
pub open spec fn ordered(list: Seq<Seq<char>>) -> bool {
    forall|i: int, j: int| 0 <= i < j < list.len() ==> before(#[trigger] list[i], #[trigger] list[j])
}

/// A list in order with one more text in its place.
pub open spec fn with_text(list: Seq<Seq<char>>, x: Seq<char>) -> Seq<Seq<char>>
    decreases list.len(),
{
    if list.len() == 0 {
        seq![x]
    } else if list[0] == x {
        list
    } else if before(x, list[0]) {
        seq![x] + list
    } else {
        seq![list[0]] + with_text(list.skip(1), x)
    }
}

/// The texts of a list in order, each once.
pub open spec fn sorted_set(list: Seq<Seq<char>>) -> Seq<Seq<char>>
    decreases list.len(),
{
    if list.len() == 0 {
        Seq::empty()
    } else {
        with_text(sorted_set(list.drop_last()), list.last())
    }
}

/// Putting a text in its place keeps the order, and adds that text alone.
pub proof fn with_text_ordered(list: Seq<Seq<char>>, x: Seq<char>)
    requires
        ordered(list),
    ensures
        ordered(with_text(list, x)),
        forall|y: Seq<char>| #[trigger] with_text(list, x).contains(y) <==> list.contains(y) || y == x,
    decreases list.len(),
{
    let n = with_text(list, x);
    if list.len() == 0 {
        assert(n =~= seq![x]);
        assert(n[0] == x);
    } else if list[0] == x {
        assert(list.contains(x));
    } else if before(x, list[0]) {
        assert forall|i: int, j: int| 0 <= i < j < n.len() implies before(#[trigger] n[i], #[trigger] n[j]) by {
            assert(n[j] == list[j - 1]);
            if i == 0 {
                if j > 1 {
                    assert(before(list[0], list[j - 1]));
                    before_transitive(x, list[0], list[j - 1]);
                }
            } else {
                assert(n[i] == list[i - 1]);
            }
        }
        assert forall|y: Seq<char>| #[trigger] n.contains(y) <==> list.contains(y) || y == x by {
            if list.contains(y) {
                let k = choose|k: int| 0 <= k < list.len() && list[k] == y;
                assert(n[k + 1] == y);
            }
            if y == x {
                assert(n[0] == x);
            }
            if n.contains(y) {
                let k = choose|k: int| 0 <= k < n.len() && n[k] == y;
                if k > 0 {
                    assert(list[k - 1] == y);
                }
            }
        }
    } else {
        let rest = list.skip(1);
        assert forall|i: int, j: int| 0 <= i < j < rest.len() implies before(#[trigger] rest[i], #[trigger] rest[j]) by {
            assert(rest[i] == list[i + 1] && rest[j] == list[j + 1]);
        }
        with_text_ordered(rest, x);
        let tail = with_text(rest, x);
        before_total(x, list[0]);
        assert forall|i: int, j: int| 0 <= i < j < n.len() implies before(#[trigger] n[i], #[trigger] n[j]) by {
            assert(n[j] == tail[j - 1]);
            if i == 0 {
                assert(tail.contains(tail[j - 1]));
                if rest.contains(tail[j - 1]) {
                    let k = choose|k: int| 0 <= k < rest.len() && rest[k] == tail[j - 1];
                    assert(rest[k] == list[k + 1]);
                    assert(before(list[0], list[k + 1]));
                }
            } else {
                assert(n[i] == tail[i - 1]);
            }
        }
        assert forall|y: Seq<char>| #[trigger] n.contains(y) <==> list.contains(y) || y == x by {
            if list.contains(y) {
                let k = choose|k: int| 0 <= k < list.len() && list[k] == y;
                if k == 0 {
                    assert(n[0] == y);
                } else {
                    assert(rest[k - 1] == y);
                    assert(rest.contains(y));
                    assert(tail.contains(y));
                    let q = choose|q: int| 0 <= q < tail.len() && tail[q] == y;
                    assert(n[q + 1] == y);
                }
            }
            if y == x {
                assert(tail.contains(y));
                let q = choose|q: int| 0 <= q < tail.len() && tail[q] == y;
                assert(n[q + 1] == y);
            }
            if n.contains(y) {
                let k = choose|k: int| 0 <= k < n.len() && n[k] == y;
                if k == 0 {
                    assert(list[0] == y);
                } else {
                    assert(tail[k - 1] == y);
                    assert(tail.contains(y));
                    if rest.contains(y) {
                        let q = choose|q: int| 0 <= q < rest.len() && rest[q] == y;
                        assert(list[q + 1] == y);
                    }
                }
            }
        }
    }
}

/// A sorted set is in order, and has the texts of the list and no others.
pub proof fn sorted_set_ordered(list: Seq<Seq<char>>)
    ensures
        ordered(sorted_set(list)),
        forall|y: Seq<char>| #[trigger] sorted_set(list).contains(y) <==> list.contains(y),
    decreases list.len(),
{
    if list.len() > 0 {
        let head = list.drop_last();
        sorted_set_ordered(head);
        with_text_ordered(sorted_set(head), list.last());
        assert forall|y: Seq<char>| #[trigger] sorted_set(list).contains(y) <==> list.contains(y) by {
            if list.contains(y) {
                let k = choose|k: int| 0 <= k < list.len() && list[k] == y;
                if k < list.len() - 1 {
                    assert(head[k] == y);
                    assert(head.contains(y));
                }
            }
            if head.contains(y) {
                let k = choose|k: int| 0 <= k < head.len() && head[k] == y;
                assert(list[k] == y);
            }
            if y == list.last() {
                assert(list[list.len() - 1] == y);
            }
        }
    }
}

proof fn with_text_at(list: Seq<Seq<char>>, x: Seq<char>, i: int)
    requires
        0 <= i <= list.len(),
        forall|j: int| 0 <= j < i ==> (#[trigger] list[j]) != x && !before(x, list[j]),
    ensures
        with_text(list, x) == list.take(i) + with_text(list.skip(i), x),
    decreases i,
{
    if i == 0 {
        assert(list.skip(0) =~= list);
        assert(list.take(0) + with_text(list, x) =~= with_text(list, x));
    } else {
        let rest = list.skip(1);
        assert(list[0] != x && !before(x, list[0]));
        assert forall|j: int| 0 <= j < i - 1 implies (#[trigger] rest[j]) != x && !before(x, rest[j]) by {
            assert(rest[j] == list[j + 1]);
        }
        with_text_at(rest, x, i - 1);
        assert(rest.skip(i - 1) =~= list.skip(i));
        assert(seq![list[0]] + (rest.take(i - 1) + with_text(list.skip(i), x)) =~= list.take(i) + with_text(
            list.skip(i),
            x,
        ));
    }
}

/// Puts a text in its place in a list that is in order.
pub fn insert_text(list: &mut Vec<String>, x: &str)
    ensures
        texts(final(list)@) == with_text(texts(old(list)@), x@),
{
    let ghost all = texts(list@);
    let mut i: usize = 0;
    while i < list.len()
        invariant
            list@ == old(list)@,
            all == texts(list@),
            i <= list@.len(),
            forall|j: int| 0 <= j < i ==> (#[trigger] all[j]) != x@ && !before(x@, all[j]),
        decreases list.len() - i,
    {
        assert(all[i as int] == list@[i as int]@);
        if same(list[i].as_str(), x) {
            proof {
                with_text_at(all, x@, i as int);
                assert(all.skip(i as int)[0] == x@);
                assert(all.take(i as int) + all.skip(i as int) =~= all);
            }
            return;
        }
        if is_before(x, list[i].as_str()) {
            proof {
                with_text_at(all, x@, i as int);
                assert(all.skip(i as int)[0] == all[i as int]);
            }
            list.insert(i, x.to_owned());
            assert(texts(list@) =~= all.take(i as int) + (seq![x@] + all.skip(i as int)));
            return;
        }
        i += 1;
    }
    proof {
        with_text_at(all, x@, i as int);
        assert(all.skip(i as int) =~= Seq::empty());
    }
    list.push(x.to_owned());
    assert(texts(list@) =~= all.take(i as int) + seq![x@]);
}

/// A text comes before another that is the same up to a place, where it has the
/// lesser character or ends.
pub proof fn first_difference(a: Seq<char>, b: Seq<char>, at: int)
    requires
        0 <= at <= a.len(),
        at < b.len(),
        forall|i: int| 0 <= i < at ==> a[i] == #[trigger] b[i],
        at < a.len() ==> (a[at] as int) < (b[at] as int),
    ensures
        before(a, b),
    decreases at,
{
    if at > 0 {
        assert(a[0] == b[0]);
        assert forall|i: int| 0 <= i < at - 1 implies a.skip(1)[i] == #[trigger] b.skip(1)[i] by {
            assert(a[i + 1] == b[i + 1]);
        }
        first_difference(a.skip(1), b.skip(1), at - 1);
    }
}

/// Texts each of which comes before the next are in order.
pub proof fn neighbours_make_order(list: Seq<Seq<char>>)
    requires
        forall|i: int| 0 <= i < list.len() - 1 ==> before(#[trigger] list[i], list[i + 1]),
    ensures
        ordered(list),
{
    assert forall|i: int, j: int| 0 <= i < j < list.len() implies before(#[trigger] list[i], #[trigger] list[j]) by {
        between(list, i, j);
    }
}

proof fn between(list: Seq<Seq<char>>, i: int, j: int)
    requires
        0 <= i < j < list.len(),
        forall|i: int| 0 <= i < list.len() - 1 ==> before(#[trigger] list[i], list[i + 1]),
    ensures
        before(list[i], list[j]),
    decreases j - i,
{
    if i + 1 < j {
        between(list, i + 1, j);
        before_transitive(list[i], list[i + 1], list[j]);
    }
}

}
