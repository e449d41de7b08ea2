//! How values are printed, and how a value is read as a switch.

use vstd::prelude::*;

use crate::case::{debug_of, debugged};
use crate::number::{dec_int, dec_int_of, digit, digits_of};
use crate::space::{fold, fold_of, trim, trim_of, Class};
use crate::text::{cat3, chars_of, contains, join, join_with, same, texts, texts_push};
use crate::value::{float_zero, get, vals, Node, Object, Val};

pub mod laws;

verus! {

/// The name of a value's type, as messages give it.
pub open spec fn kind_text(v: Val) -> Seq<char> {
    match v {
        Val::Null => "NoneType"@,
        Val::Bool(_) => "bool"@,
        Val::Int(_) => "int"@,
        Val::Float(_) => "float"@,
        Val::Text(_) => "str"@,
        Val::Array(_) => "list"@,
        Val::Object(_) => "dict"@,
    }
}

pub fn kind_name(v: &Node) -> (r: String)
    ensures
        r@ == kind_text(v@),
{
    match v {
        Node::Null => "NoneType".to_owned(),
        Node::Bool(_) => "bool".to_owned(),
        Node::Int(_) => "int".to_owned(),
        Node::Float(_) => "float".to_owned(),
        Node::Text(_) => "str".to_owned(),
        Node::Array(_) => "list".to_owned(),
        Node::Object(_) => "dict".to_owned(),
    }
}

// ---------------------------------------------------------------------------
// Quoted text

/// Whether a character is printed as an escape with its number.
pub open spec fn is_control(c: char) -> bool {
    let n = c as u32;
    n < 0x20 || 0x7f <= n <= 0xa0 || n == 0xad
}

/// How a character is printed inside quotes.
pub open spec fn escape_char(c: char, quote: char) -> Seq<char> {
    if c == quote || c == '\\' {
        seq!['\\', c]
    } else if c == '\n' {
        seq!['\\', 'n']
    } else if c == '\r' {
        seq!['\\', 'r']
    } else if c == '\t' {
        seq!['\\', 't']
    } else if is_control(c) {
        seq!['\\', 'x', digit(c as int / 16), digit(c as int % 16)]
    } else {
        seq![c]
    }
}

pub open spec fn escaped(s: Seq<char>, quote: char) -> Seq<char>
    decreases s.len(),
{
    if s.len() == 0 {
        Seq::empty()
    } else {
        escaped(s.drop_last(), quote) + escape_char(s.last(), quote)
    }
}

/// The quote a text is printed in: the apostrophe, unless the text holds one
/// and no quotation mark.
pub open spec fn quote_for(s: Seq<char>) -> char {
    if s.contains('\'') && !s.contains('"') {
        '"'
    } else {
        '\''
    }
}

/// A text as it is printed in quotes.
pub open spec fn quoted(s: Seq<char>) -> Seq<char> {
    let q = quote_for(s);
    seq![q] + escaped(s, q) + seq![q]
}

fn push_escaped(out: &mut String, c: char, quote: char)
    ensures
        final(out)@ == old(out)@ + escape_char(c, quote),
{
    let n: u32 = c as u32;
    let ghost before = out@;
    if c == quote || c == '\\' {
        out.push('\\');
        out.push(c);
    } else if c == '\n' {
        out.push('\\');
        out.push('n');
    } else if c == '\r' {
        out.push('\\');
        out.push('r');
    } else if c == '\t' {
        out.push('\\');
        out.push('t');
    } else if n < 0x20 || (0x7f <= n && n <= 0xa0) || n == 0xad {
        out.push('\\');
        out.push('x');
        let high = digits_of((n / 16) as u128, 16);
        let low = digits_of((n % 16) as u128, 16);
        out.append(high.as_str());
        out.append(low.as_str());
    } else {
        out.push(c);
    }
    assert(out@ =~= before + escape_char(c, quote));
}

fn has_char(a: &Vec<char>, c: char) -> (r: bool)
    ensures
        r == a@.contains(c),
{
    let mut i: usize = 0;
    while i < a.len()
        invariant
            i <= a@.len(),
            forall|j: int| 0 <= j < i ==> a@[j] != c,
        decreases a.len() - i,
    {
        if a[i] == c {
            return true;
        }
        i += 1;
    }
    false
}

/// A text as it is printed in quotes.
pub fn repr_str(s: &str) -> (r: String)
    ensures
        r@ == quoted(s@),
{
    let a = chars_of(s);
    let quote = if has_char(&a, '\'') && !has_char(&a, '"') {
        '"'
    } else {
        '\''
    };
    let mut out = String::new();
    out.push(quote);
    let mut i: usize = 0;
    assert(a@.take(0) =~= Seq::empty());
    while i < a.len()
        invariant
            i <= a@.len(),
            out@ == seq![quote] + escaped(a@.take(i as int), quote),
        decreases a.len() - i,
    {
        push_escaped(&mut out, a[i], quote);
        i += 1;
        assert(a@.take(i as int).drop_last() =~= a@.take(i - 1));
        assert(out@ =~= seq![quote] + escaped(a@.take(i as int), quote));
    }
    assert(a@.take(i as int) =~= a@);
    out.push(quote);
    assert(out@ =~= quoted(s@));
    out
}

// ---------------------------------------------------------------------------
// Values

/// A value as it is printed inside a list or a mapping.
pub open spec fn repr(v: Val) -> Seq<char>
    decreases v,
{
    match v {
        Val::Null => "None"@,
        Val::Bool(b) => if b {
            "True"@
        } else {
            "False"@
        },
        Val::Int(n) => dec_int(n),
        Val::Float(s) => s,
        Val::Text(s) => quoted(s),
        Val::Array(items) => "["@ + join(reprs(items), ", "@) + "]"@,
        Val::Object(m) => "{"@ + join(repr_entries(m), ", "@) + "}"@,
    }
}

/// The items of a list as they are printed in it.
pub open spec fn reprs(items: Seq<Val>) -> Seq<Seq<char>>
    decreases items,
{
    Seq::new(
        items.len(),
        |i: int|
            if 0 <= i < items.len() {
                repr(items[i])
            } else {
                Seq::empty()
            },
    )
}

/// The entries of a mapping as they are printed in it.
pub open spec fn repr_entries(m: Seq<(Seq<char>, Val)>) -> Seq<Seq<char>>
    decreases m,
{
    Seq::new(
        m.len(),
        |i: int|
            if 0 <= i < m.len() {
                quoted(m[i].0) + ": "@ + repr(m[i].1)
            } else {
                Seq::empty()
            },
    )
}

/// A value as it is printed on its own: a text is itself.
pub open spec fn show(v: Val) -> Seq<char> {
    match v {
        Val::Text(s) => s,
        _ => repr(v),
    }
}

fn repr_list(items: &Vec<Node>) -> (r: String)
    ensures
        r@ == repr(Val::Array(crate::value::vals(items@))),
    decreases items,
{
    broadcast use texts_push;
    let ghost model = crate::value::vals(items@);
    let ghost want = reprs(model);
    let mut parts: Vec<String> = Vec::new();
    let mut i: usize = 0;
    while i < items.len()
        invariant
            i <= items@.len(),
            model == crate::value::vals(items@),
            want == reprs(model),
            texts(parts@) == want.take(i as int),
        decreases items.len() - i,
    {
        let part = repr_of(&items[i]);
        assert(part@ == want[i as int]);
        parts.push(part);
        i += 1;
        assert(want.take(i as int) =~= want.take(i - 1).push(want[i - 1]));
    }
    assert(want.take(i as int) =~= want);
    cat3("[", join_with(&parts, ", ").as_str(), "]")
}

/// A value as it is printed inside a list or a mapping.
pub fn repr_of(v: &Node) -> (r: String)
    ensures
        r@ == repr(v@),
    decreases v,
{
    match v {
        Node::Null => "None".to_owned(),
        Node::Bool(b) => if *b {
            "True".to_owned()
        } else {
            "False".to_owned()
        },
        Node::Int(n) => dec_int_of(*n),
        Node::Float(s) => s.clone(),
        Node::Text(s) => repr_str(s.as_str()),
        Node::Array(items) => repr_list(items),
        Node::Object(o) => repr_object(o),
    }
}

/// A value as it is printed on its own.
pub fn py_str(v: &Node) -> (r: String)
    ensures
        r@ == show(v@),
{
    match v {
        Node::Text(s) => s.clone(),
        _ => repr_of(v),
    }
}

// ---------------------------------------------------------------------------
// Switches

/// Whether a value counts as true: it is neither nothing, nor zero, nor empty.
pub open spec fn truthy(v: Val) -> bool {
    match v {
        Val::Null => false,
        Val::Bool(b) => b,
        Val::Int(n) => n != 0,
        Val::Float(s) => !float_zero(s),
        Val::Text(s) => s.len() > 0,
        Val::Array(items) => items.len() > 0,
        Val::Object(m) => m.len() > 0,
    }
}

pub fn py_truthy(v: &Node) -> (r: bool)
    ensures
        r == truthy(v@),
{
    match v {
        Node::Null => false,
        Node::Bool(b) => *b,
        Node::Int(n) => *n != 0,
        Node::Float(s) => !(same(s.as_str(), "0.0") || same(s.as_str(), "-0.0")),
        Node::Text(s) => !s.as_str().is_empty(),
        Node::Array(items) => items.len() > 0,
        Node::Object(o) => o.len() > 0,
    }
}

/// The printed value, without regard to case and surrounding space.
pub open spec fn plain(v: Val) -> Seq<char> {
    trim(Class::TextSpace, fold(show(v)))
}

pub fn plain_of(v: &Node) -> (r: String)
    ensures
        r@ == plain(v@),
{
    trim_of(Class::TextSpace, fold_of(py_str(v).as_str()).as_str())
}

/// Whether a value switches something on: `True`, or one of the words `true`,
/// `1`, `on` and `yes`.
pub open spec fn switched_on(v: Val) -> bool {
    truthy(v) && (match v {
        Val::Bool(b) => b,
        _ => {
            let s = plain(v);
            s == "true"@ || s == "1"@ || s == "on"@ || s == "yes"@
        },
    })
}

pub fn translate_bool(v: &Node) -> (r: bool)
    ensures
        r == switched_on(v@),
{
    if !py_truthy(v) {
        return false;
    }
    match v {
        Node::Bool(b) => *b,
        _ => {
            let s = plain_of(v);
            let s = s.as_str();
            same(s, "true") || same(s, "1") || same(s, "on") || same(s, "yes")
        },
    }
}

/// Whether a value switches something off: `False`, or one of the words `off`,
/// `0`, `no` and `false`.
pub open spec fn switched_off(v: Val) -> bool {
    match v {
        Val::Bool(b) => !b,
        _ => {
            let s = plain(v);
            s == "off"@ || s == "0"@ || s == "no"@ || s == "false"@
        },
    }
}

pub fn is_false(v: &Node) -> (r: bool)
    ensures
        r == switched_off(v@),
{
    match v {
        Node::Bool(b) => !*b,
        _ => {
            let s = plain_of(v);
            let s = s.as_str();
            same(s, "off") || same(s, "0") || same(s, "no") || same(s, "false")
        },
    }
}

/// A switch of a mapping, with what holds where it is absent.
pub open spec fn switch(m: Seq<(Seq<char>, Val)>, key: Seq<char>, default: bool) -> bool {
    match get(m, key) {
        Some(v) => switched_on(v),
        None => default,
    }
}

pub fn get_bool(m: &Object, key: &str, default: bool) -> (r: bool)
    ensures
        r == switch(m@, key@, default),
{
    match m.get(key) {
        Some(v) => translate_bool(v),
        None => default,
    }
}

/// The printed value under a key.
pub open spec fn shown_at(m: Seq<(Seq<char>, Val)>, key: Seq<char>) -> Option<Seq<char>> {
    match get(m, key) {
        Some(v) => Some(show(v)),
        None => None,
    }
}

pub fn cfg_str(m: &Object, key: &str) -> (r: Option<String>)
    ensures
        crate::text::opt_text(r) == shown_at(m@, key@),
{
    match m.get(key) {
        Some(v) => Some(py_str(v)),
        None => None,
    }
}

fn repr_object(o: &Object) -> (r: String)
    ensures
        r@ == repr(Val::Object(o@)),
    decreases o,
{
    broadcast use texts_push;
    let ghost m = o@;
    let ghost want = repr_entries(m);
    let mut parts: Vec<String> = Vec::new();
    let mut i: usize = 0;
    while i < o.len()
        invariant
            i <= m.len(),
            m == o@,
            want == repr_entries(m),
            texts(parts@) == want.take(i as int),
        decreases m.len() - i,
    {
        let value = o.value_at(i);
        let key = repr_str(o.key_at(i).as_str());
        let part = cat3(key.as_str(), ": ", repr_of(value).as_str());
        assert(part@ == want[i as int]);
        parts.push(part);
        i += 1;
        assert(want.take(i as int) =~= want.take(i - 1).push(want[i - 1]));
    }
    assert(want.take(i as int) =~= want);
    cat3("{", join_with(&parts, ", ").as_str(), "}")
}

/// Values as they are printed.
pub open spec fn shows(items: Seq<Val>) -> Seq<Seq<char>> {
    Seq::new(items.len(), |i: int| show(items[i]))
}

pub fn shown_list(items: &Vec<Node>) -> (r: Vec<String>)
    ensures
        texts(r@) == shows(vals(items@)),
{
    let ghost all = vals(items@);
    let ghost want = shows(all);
    let mut out: Vec<String> = Vec::new();
    let mut i: usize = 0;
    assert(texts(out@) =~= want.take(0));
    while i < items.len()
        invariant
            i <= items@.len(),
            all == vals(items@),
            want == shows(all),
            texts(out@) == want.take(i as int),
        decreases items.len() - i,
    {
        assert(all[i as int] == items@[i as int]@);
        let ghost before = texts(out@);
        out.push(py_str(&items[i]));
        assert(texts(out@) =~= before.push(want[i as int]));
        i += 1;
        assert(want.take(i as int) =~= want.take(i - 1).push(want[i - 1]));
    }
    assert(want.take(i as int) =~= want);
    out
}

// ---------------------------------------------------------------------------
// Lists of texts

/// Texts in quotes.
pub open spec fn all_quoted(list: Seq<Seq<char>>) -> Seq<Seq<char>> {
    Seq::new(list.len(), |i: int| quoted(list[i]))
}

fn quote_all(list: &Vec<String>) -> (r: Vec<String>)
    ensures
        texts(r@) == all_quoted(texts(list@)),
{
    broadcast use texts_push;
    let ghost all = texts(list@);
    let ghost want = all_quoted(all);
    let mut out: Vec<String> = Vec::new();
    let mut i: usize = 0;
    assert(texts(out@) =~= want.take(0));
    while i < list.len()
        invariant
            i <= list@.len(),
            all == texts(list@),
            want == all_quoted(all),
            texts(out@) == want.take(i as int),
        decreases list.len() - i,
    {
        assert(all[i as int] == list@[i as int]@);
        out.push(repr_str(list[i].as_str()));
        i += 1;
        assert(want.take(i as int) =~= want.take(i - 1).push(want[i - 1]));
    }
    assert(want.take(i as int) =~= want);
    out
}

/// A list of texts as it is printed.
pub open spec fn list_repr(list: Seq<Seq<char>>) -> Seq<char> {
    "["@ + join(all_quoted(list), ", "@) + "]"@
}

pub fn list_repr_of(list: &Vec<String>) -> (r: String)
    ensures
        r@ == list_repr(texts(list@)),
{
    cat3("[", join_with(&quote_all(list), ", ").as_str(), "]")
}

/// A set of texts as it is printed.
pub open spec fn set_repr(list: Seq<Seq<char>>) -> Seq<char> {
    if list.len() == 0 {
        "set()"@
    } else {
        "{"@ + join(all_quoted(list), ", "@) + "}"@
    }
}

pub fn set_repr_of(list: &Vec<String>) -> (r: String)
    ensures
        r@ == set_repr(texts(list@)),
{
    if list.len() == 0 {
        "set()".to_owned()
    } else {
        cat3("{", join_with(&quote_all(list), ", ").as_str(), "}")
    }
}

/// Texts as `{:?}` gives them.
pub open spec fn all_debugged(list: Seq<Seq<char>>) -> Seq<Seq<char>> {
    Seq::new(list.len(), |i: int| debugged(list[i]))
}

fn debug_all(list: &Vec<String>) -> (r: Vec<String>)
    ensures
        texts(r@) == all_debugged(texts(list@)),
{
    broadcast use texts_push;
    let ghost all = texts(list@);
    let ghost want = all_debugged(all);
    let mut out: Vec<String> = Vec::new();
    let mut i: usize = 0;
    assert(texts(out@) =~= want.take(0));
    while i < list.len()
        invariant
            i <= list@.len(),
            all == texts(list@),
            want == all_debugged(all),
            texts(out@) == want.take(i as int),
        decreases list.len() - i,
    {
        assert(all[i as int] == list@[i as int]@);
        out.push(debug_of(list[i].as_str()));
        i += 1;
        assert(want.take(i as int) =~= want.take(i - 1).push(want[i - 1]));
    }
    assert(want.take(i as int) =~= want);
    out
}

/// A list of texts as `{:?}` gives it.
pub open spec fn list_debugged(list: Seq<Seq<char>>) -> Seq<char> {
    "["@ + join(all_debugged(list), ", "@) + "]"@
}

pub fn list_debug_of(list: &Vec<String>) -> (r: String)
    ensures
        r@ == list_debugged(texts(list@)),
{
    cat3("[", join_with(&debug_all(list), ", ").as_str(), "]")
}

}
