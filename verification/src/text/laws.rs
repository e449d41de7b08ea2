//! What the functions on texts promise of each other.

use vstd::prelude::*;

use crate::text::{
    behind, find, find_from, find_from_is_first, holds, join, join_from_front, replaced, rfind, rsplit_once, split, split_once,
    stands_at,
};

verus! {

/// The first place where a pattern stands is the one that is found.
pub proof fn first_found(s: Seq<char>, pat: Seq<char>, from: int, i: int)
    requires
        0 <= from <= i,
        stands_at(s, pat, i),
        forall|j: int| from <= j < i ==> !stands_at(s, pat, j),
    ensures
        find_from(s, pat, from) == Some(i),
{
    find_from_is_first(s, pat, from);
}

/// The first piece of a split text ends where the separator stands first.
pub proof fn first_of_split(s: Seq<char>, sep: Seq<char>, i: int)
    requires
        sep.len() > 0,
        0 <= i,
        stands_at(s, sep, i),
        forall|j: int| 0 <= j < i ==> !stands_at(s, sep, j),
    ensures
        split(s, sep)[0] == s.take(i),
        split(s, sep).skip(1) == split(s.skip(i + sep.len()), sep),
{
    first_found(s, sep, 0, i);
    assert(split(s, sep).skip(1) =~= split(s.skip(i + sep.len()), sep));
}

/// A split text is its pieces with the separator between them, and no piece holds the
/// separator.
pub proof fn pieces_make_up_the_text(s: Seq<char>, sep: Seq<char>)
    requires
        sep.len() > 0,
    ensures
        split(s, sep).len() > 0,
        join(split(s, sep), sep) == s,
        forall|i: int| 0 <= i < split(s, sep).len() ==> !holds(#[trigger] split(s, sep)[i], sep),
    decreases s.len(),
{
    find_from_is_first(s, sep, 0);
    let parts = split(s, sep);
    match find(s, sep) {
        None => {
            assert(parts =~= seq![s]);
            assert(parts.drop_last() =~= Seq::empty());
            reveal_with_fuel(join, 2);
            assert(join(parts, sep) =~= s);
        },
        Some(i) => {
            let rest = s.skip(i + sep.len());
            pieces_make_up_the_text(rest, sep);
            assert(parts =~= seq![s.take(i)] + split(rest, sep));
            assert(parts.skip(1) =~= split(rest, sep));
            join_from_front(parts, sep);
            assert(s =~= s.take(i) + sep + rest);
            assert(!holds(s.take(i), sep)) by {
                find_from_is_first(s.take(i), sep, 0);
                if holds(s.take(i), sep) {
                    let j = find(s.take(i), sep)->0;
                    assert(s.take(i).subrange(j, j + sep.len()) =~= s.subrange(j, j + sep.len()));
                    assert(stands_at(s, sep, j));
                }
            }
            assert forall|k: int| 0 <= k < parts.len() implies !holds(#[trigger] parts[k], sep) by {
                if k > 0 {
                    assert(parts[k] == split(rest, sep)[k - 1]);
                }
            }
        },
    }
}

/// A text that is cut in two at a pattern is the two parts with the pattern between
/// them, and the pattern does not stand in the first.
pub proof fn the_two_parts_of_a_text(s: Seq<char>, sep: Seq<char>)
    ensures
        split_once(s, sep) is None <==> !holds(s, sep),
        split_once(s, sep) is Some ==> {
            let (head, tail) = split_once(s, sep)->0;
            s == head + sep + tail && (sep.len() > 0 ==> !holds(head, sep))
        },
{
    find_from_is_first(s, sep, 0);
    if let Some(i) = find(s, sep) {
        assert(s =~= s.take(i) + sep + s.skip(i + sep.len()));
        if sep.len() > 0 && holds(s.take(i), sep) {
            find_from_is_first(s.take(i), sep, 0);
            let j = find(s.take(i), sep)->0;
            assert(s.take(i).subrange(j, j + sep.len()) =~= s.subrange(j, j + sep.len()));
            assert(stands_at(s, sep, j));
        }
    }
}

/// The last place of a character is behind all others.
pub proof fn last_found(head: Seq<char>, c: char, tail: Seq<char>)
    requires
        !tail.contains(c),
    ensures
        rsplit_once(head + seq![c] + tail, c) == Some((head, tail)),
    decreases tail.len(),
{
    let s = head + seq![c] + tail;
    last_place(head, c, tail);
    assert(s.take(head.len() as int) =~= head);
    assert(s.skip(head.len() as int + 1) =~= tail);
}

proof fn last_place(head: Seq<char>, c: char, tail: Seq<char>)
    requires
        !tail.contains(c),
    ensures
        rfind(head + seq![c] + tail, c) == Some(head.len() as int),
    decreases tail.len(),
{
    let s = head + seq![c] + tail;
    if tail.len() > 0 {
        assert(tail.contains(tail.last()));
        assert(s.last() == tail.last());
        assert(s.drop_last() =~= head + seq![c] + tail.drop_last());
        assert forall|x: char| tail.drop_last().contains(x) implies tail.contains(x) by {
            let i = choose|i: int| 0 <= i < tail.drop_last().len() && tail.drop_last()[i] == x;
            assert(tail[i] == x);
        }
        last_place(head, c, tail.drop_last());
    } else {
        assert(s.last() == c);
    }
}

/// What stands behind a beginning is the rest.
pub proof fn the_rest_stands_behind(s: Seq<char>, prefix: Seq<char>, rest: Seq<char>)
    ensures
        behind(prefix + rest, prefix) == Some(rest),
        behind(s, prefix) is Some ==> s == prefix + behind(s, prefix)->0,
{
    let whole = prefix + rest;
    assert(whole.subrange(0, prefix.len() as int) =~= prefix);
    assert(whole.skip(prefix.len() as int) =~= rest);
    if behind(s, prefix) is Some {
        assert(s =~= s.subrange(0, prefix.len() as int) + s.skip(prefix.len() as int));
    }
}

/// Where a pattern does not stand, nothing is replaced; where it stands, the first place
/// is replaced and what comes behind it is dealt with alike.
pub proof fn what_is_replaced(head: Seq<char>, from: Seq<char>, rest: Seq<char>, to: Seq<char>)
    requires
        from.len() > 0,
        forall|j: int| 0 <= j < head.len() ==> !stands_at(head + from + rest, from, j),
    ensures
        replaced(head + from + rest, from, to) == head + to + replaced(rest, from, to),
        !holds(rest, from) ==> replaced(rest, from, to) == rest,
{
    let s = head + from + rest;
    let i = head.len() as int;
    assert(s.subrange(i, i + from.len()) =~= from);
    first_of_split(s, from, i);
    pieces_make_up_the_text(rest, from);
    let parts = split(s, from);
    assert(s.take(i) =~= head);
    assert(s.skip(i + from.len()) =~= rest);
    assert(parts =~= seq![head] + split(rest, from)) by {
        first_found(s, from, 0, i);
    }
    assert(parts.skip(1) =~= split(rest, from));
    join_from_front(parts, to);
    if !holds(rest, from) {
        assert(split(rest, from) =~= seq![rest]);
        assert(seq![rest].drop_last() =~= Seq::empty());
        reveal_with_fuel(join, 2);
        assert(join(seq![rest], to) =~= rest);
    }
}

} // verus!
