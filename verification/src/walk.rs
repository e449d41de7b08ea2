//! Walking over a value.

use vstd::prelude::*;

use crate::show::{kind_name, kind_text};
use crate::text::{cat3, char_text, chars_of};
use crate::value::{copy_values, vals, vals_push, Node, Val};

verus! {

/// What a walk over a value comes by: the items of a list, the characters of a
/// text, the keys of a mapping.
pub open spec fn items_of(v: Val) -> Result<Seq<Val>, Seq<char>> {
    match v {
        Val::Array(items) => Ok(items),
        Val::Text(s) => Ok(Seq::new(s.len(), |i: int| Val::Text(seq![s[i]]))),
        Val::Object(m) => Ok(Seq::new(m.len(), |i: int| Val::Text(m[i].0))),
        _ => Err("'"@ + kind_text(v) + "' object is not iterable"@),
    }
}

/// How many items, characters or keys a value has.
pub open spec fn length_of(v: Val) -> Result<nat, Seq<char>> {
    match v {
        Val::Array(items) => Ok(items.len()),
        Val::Text(s) => Ok(s.len()),
        Val::Object(m) => Ok(m.len()),
        _ => Err("object of type '"@ + kind_text(v) + "' has no len()"@),
    }
}

/// The characters of a text, each a text value.
pub fn letters(s: &str) -> (r: Vec<Node>)
    ensures
        vals(r@) == Seq::new(s@.len(), |i: int| Val::Text(seq![s@[i]])),
{
    broadcast use vals_push;
    let ghost want = Seq::new(s@.len(), |i: int| Val::Text(seq![s@[i]]));
    let a = chars_of(s);
    let mut out: Vec<Node> = Vec::new();
    let mut i: usize = 0;
    while i < a.len()
        invariant
            i <= a@.len(),
            a@ == s@,
            want == Seq::new(s@.len(), |i: int| Val::Text(seq![s@[i]])),
            vals(out@) == want.take(i as int),
        decreases a.len() - i,
    {
        out.push(Node::Text(char_text(a[i])));
        i += 1;
        assert(want.take(i as int) =~= want.take(i - 1).push(want[i - 1]));
    }
    assert(want.take(i as int) =~= want);
    out
}

pub fn py_iter(v: &Node) -> (r: Result<Vec<Node>, String>)
    ensures
        match r {
            Ok(items) => items_of(v@) == Ok::<Seq<Val>, Seq<char>>(vals(items@)),
            Err(e) => items_of(v@) == Err::<Seq<Val>, Seq<char>>(e@),
        },
{
    broadcast use vals_push;
    match v {
        Node::Array(items) => Ok(copy_values(items)),
        Node::Text(s) => Ok(letters(s.as_str())),
        Node::Object(o) => {
            let ghost want = Seq::new(o@.len(), |i: int| Val::Text(o@[i].0));
            let mut out: Vec<Node> = Vec::new();
            let mut i: usize = 0;
            while i < o.len()
                invariant
                    i <= o@.len(),
                    want == Seq::new(o@.len(), |i: int| Val::Text(o@[i].0)),
                    vals(out@) == want.take(i as int),
                decreases o@.len() - i,
            {
                out.push(Node::Text(o.key_at(i).clone()));
                i += 1;
                assert(want.take(i as int) =~= want.take(i - 1).push(want[i - 1]));
            }
            assert(want.take(i as int) =~= want);
            Ok(out)
        },
        other => Err(cat3("'", kind_name(other).as_str(), "' object is not iterable")),
    }
}

pub fn py_len(v: &Node) -> (r: Result<usize, String>)
    ensures
        match r {
            Ok(n) => length_of(v@) == Ok::<nat, Seq<char>>(n as nat),
            Err(e) => length_of(v@) == Err::<nat, Seq<char>>(e@),
        },
{
    match v {
        Node::Array(items) => Ok(items.len()),
        Node::Text(s) => Ok(s.as_str().unicode_len()),
        Node::Object(o) => Ok(o.len()),
        other => Err(cat3("object of type '", kind_name(other).as_str(), "' has no len()")),
    }
}

}
