//! JSON text in ASCII.

use vstd::prelude::*;

use crate::number::{dec_int, dec_int_of, digits, digits_of, zero_padded};
use crate::text::{cat2, cat3, chars_of, join, join_with, texts, texts_push};
use crate::value::{vals, Node, Object, Val};

pub mod laws;

verus! {

/// Four hexadecimal digits.
pub open spec fn hex4(n: nat) -> Seq<char> {
    zero_padded(digits(n, 16), 4)
}

/// How a character stands in a JSON text of ASCII characters alone. One beyond
/// sixteen bits is a pair of surrogates.
pub open spec fn ascii_char(c: char) -> Seq<char> {
    let n = c as u32;
    if c == '"' || c == '\\' {
        seq!['\\', c]
    } else if n == 0x08 {
        seq!['\\', 'b']
    } else if n == 0x09 {
        seq!['\\', 't']
    } else if n == 0x0a {
        seq!['\\', 'n']
    } else if n == 0x0c {
        seq!['\\', 'f']
    } else if n == 0x0d {
        seq!['\\', 'r']
    } else if 0x20 <= n <= 0x7e {
        seq![c]
    } else if n <= 0xffff {
        seq!['\\', 'u'] + hex4(n as nat)
    } else {
        seq!['\\', 'u'] + hex4((0xd800 + (n - 0x10000) / 0x400) as nat) + seq!['\\', 'u'] + hex4(
            (0xdc00 + (n - 0x10000) % 0x400) as nat,
        )
    }
}

pub open spec fn ascii_chars(s: Seq<char>) -> Seq<char>
    decreases s.len(),
{
    if s.len() == 0 {
        Seq::empty()
    } else {
        ascii_chars(s.drop_last()) + ascii_char(s.last())
    }
}

pub open spec fn ascii_quoted(s: Seq<char>) -> Seq<char> {
    seq!['"'] + ascii_chars(s) + seq!['"']
}

/// A value as JSON text on one line, with a space behind each comma and colon.
pub open spec fn dumped(v: Val) -> Seq<char>
    decreases v,
{
    match v {
        Val::Null => "null"@,
        Val::Bool(b) => if b {
            "true"@
        } else {
            "false"@
        },
        Val::Int(n) => dec_int(n),
        Val::Float(s) => s,
        Val::Text(s) => ascii_quoted(s),
        Val::Array(items) => "["@ + join(dumped_items(items), ", "@) + "]"@,
        Val::Object(m) => "{"@ + join(dumped_entries(m), ", "@) + "}"@,
    }
}

pub open spec fn dumped_items(items: Seq<Val>) -> Seq<Seq<char>>
    decreases items,
{
    Seq::new(
        items.len(),
        |i: int|
            if 0 <= i < items.len() {
                dumped(items[i])
            } else {
                Seq::empty()
            },
    )
}

pub open spec fn dumped_entries(m: Seq<(Seq<char>, Val)>) -> Seq<Seq<char>>
    decreases m,
{
    Seq::new(
        m.len(),
        |i: int|
            if 0 <= i < m.len() {
                ascii_quoted(m[i].0) + ": "@ + dumped(m[i].1)
            } else {
                Seq::empty()
            },
    )
}

fn hex4_of(n: u32) -> (r: String)
    ensures
        r@ == hex4(n as nat),
{
    let mut out = digits_of(n as u128, 16);
    let mut len: usize = out.as_str().unicode_len();
    while len < 4
        invariant
            len == out@.len(),
            zero_padded(out@, 4) == hex4(n as nat),
        decreases 4 - len,
    {
        proof {
            reveal_strlit("0");
            assert("0"@ =~= seq!['0']);
        }
        out = cat2("0", out.as_str());
        len += 1;
    }
    out
}

fn push_ascii(out: &mut String, c: char)
    ensures
        final(out)@ == old(out)@ + ascii_char(c),
{
    let n: u32 = c as u32;
    let ghost before = out@;
    if c == '"' || c == '\\' {
        out.push('\\');
        out.push(c);
    } else if n == 0x08 {
        out.push('\\');
        out.push('b');
    } else if n == 0x09 {
        out.push('\\');
        out.push('t');
    } else if n == 0x0a {
        out.push('\\');
        out.push('n');
    } else if n == 0x0c {
        out.push('\\');
        out.push('f');
    } else if n == 0x0d {
        out.push('\\');
        out.push('r');
    } else if 0x20 <= n && n <= 0x7e {
        out.push(c);
    } else if n <= 0xffff {
        out.push('\\');
        out.push('u');
        out.append(hex4_of(n).as_str());
    } else {
        let high: u32 = 0xd800 + (n - 0x10000) / 0x400;
        let low: u32 = 0xdc00 + (n - 0x10000) % 0x400;
        out.push('\\');
        out.push('u');
        out.append(hex4_of(high).as_str());
        out.push('\\');
        out.push('u');
        out.append(hex4_of(low).as_str());
    }
    assert(out@ =~= before + ascii_char(c));
}

fn quote_ascii(s: &str) -> (r: String)
    ensures
        r@ == ascii_quoted(s@),
{
    let a = chars_of(s);
    let mut out = String::new();
    out.push('"');
    let mut i: usize = 0;
    assert(a@.take(0) =~= Seq::empty());
    while i < a.len()
        invariant
            i <= a@.len(),
            out@ == seq!['"'] + ascii_chars(a@.take(i as int)),
        decreases a.len() - i,
    {
        push_ascii(&mut out, a[i]);
        i += 1;
        assert(a@.take(i as int).drop_last() =~= a@.take(i - 1));
        assert(out@ =~= seq!['"'] + ascii_chars(a@.take(i as int)));
    }
    assert(a@.take(i as int) =~= a@);
    out.push('"');
    assert(out@ =~= ascii_quoted(s@));
    out
}

/// A value as JSON text.
pub fn dumps(v: &Node) -> (r: String)
    ensures
        r@ == dumped(v@),
    decreases v,
{
    match v {
        Node::Null => "null".to_owned(),
        Node::Bool(b) => if *b {
            "true".to_owned()
        } else {
            "false".to_owned()
        },
        Node::Int(n) => dec_int_of(*n),
        Node::Float(s) => s.clone(),
        Node::Text(s) => quote_ascii(s.as_str()),
        Node::Array(items) => dump_items(items),
        Node::Object(o) => dump_entries(o),
    }
}

fn dump_items(items: &Vec<Node>) -> (r: String)
    ensures
        r@ == dumped(Val::Array(vals(items@))),
    decreases items,
{
    broadcast use texts_push;
    let ghost model = vals(items@);
    let ghost want = dumped_items(model);
    let mut parts: Vec<String> = Vec::new();
    let mut i: usize = 0;
    while i < items.len()
        invariant
            i <= items@.len(),
            model == vals(items@),
            want == dumped_items(model),
            texts(parts@) == want.take(i as int),
        decreases items.len() - i,
    {
        let part = dumps(&items[i]);
        assert(part@ == want[i as int]);
        parts.push(part);
        i += 1;
        assert(want.take(i as int) =~= want.take(i - 1).push(want[i - 1]));
    }
    assert(want.take(i as int) =~= want);
    cat3("[", join_with(&parts, ", ").as_str(), "]")
}

fn dump_entries(o: &Object) -> (r: String)
    ensures
        r@ == dumped(Val::Object(o@)),
    decreases o,
{
    broadcast use texts_push;
    let ghost m = o@;
    let ghost want = dumped_entries(m);
    let mut parts: Vec<String> = Vec::new();
    let mut i: usize = 0;
    while i < o.len()
        invariant
            i <= m.len(),
            m == o@,
            want == dumped_entries(m),
            texts(parts@) == want.take(i as int),
        decreases m.len() - i,
    {
        let value = o.value_at(i);
        let part = cat3(quote_ascii(o.key_at(i).as_str()).as_str(), ": ", dumps(value).as_str());
        assert(part@ == want[i as int]);
        parts.push(part);
        i += 1;
        assert(want.take(i as int) =~= want.take(i - 1).push(want[i - 1]));
    }
    assert(want.take(i as int) =~= want);
    cat3("{", join_with(&parts, ", ").as_str(), "}")
}

}
