//! JSON, as `serde_json` reads and writes it.

use vstd::prelude::*;

use crate::number::digit;
use crate::value::{Object, Val, Node};

verus! {

#[verifier::external_type_specification]
#[verifier::external_body]
pub struct ExJson(serde_json::Value);

/// What `serde_json::from_str` makes of a text: the value that stands in it, or
/// the error's message.
pub uninterp spec fn json_of(text: Seq<char>) -> Result<Val, Seq<char>>;

/// The library's form of a JSON value. It changes the type of the value and of
/// the values within it, one for one; a number that is no integer keeps the
/// text that `serde_json` prints it with. Nothing is claimed of it on its own.
#[verifier::external_body]
fn from_json(v: serde_json::Value) -> (r: Node) {
    match v {
        serde_json::Value::Null => Node::Null,
        serde_json::Value::Bool(b) => Node::Bool(b),
        serde_json::Value::Number(n) => n.as_i128().map_or_else(|| Node::Float(n.to_string()), Node::Int),
        serde_json::Value::String(s) => Node::Text(s),
        serde_json::Value::Array(a) => Node::Array(a.into_iter().map(from_json).collect()),
        serde_json::Value::Object(m) => {
            let mut o = Object::new();
            m.into_iter().for_each(|(k, x)| o.insert(&k, from_json(x)));
            Node::Object(o)
        }
    }
}

/// `serde_json::from_str` on a text: the value that stands in it, or the message
/// of the error. The claim is that the outcome depends on the text alone.
#[verifier::external_body]
pub(crate) fn parse_json(text: &str) -> (r: Result<Node, String>)
    ensures
        match r {
            Ok(v) => json_of(text@) == Ok::<Val, Seq<char>>(v@),
            Err(e) => json_of(text@) == Err::<Val, Seq<char>>(e@),
        },
{
    serde_json::from_str(text).map(from_json).map_err(|e| e.to_string())
}

/// How a character stands in a JSON string.
pub open spec fn json_char(c: char) -> Seq<char> {
    let n = c as int;
    if c == '"' || c == '\\' {
        seq!['\\', c]
    } else if n == 0x08 {
        seq!['\\', 'b']
    } else if n == 0x09 {
        seq!['\\', 't']
    } else if n == 0x0a {
        seq!['\\', 'n']
    } else if n == 0x0c {
        seq!['\\', 'f']
    } else if n == 0x0d {
        seq!['\\', 'r']
    } else if n < 0x20 {
        seq!['\\', 'u', '0', '0', digit(n / 16), digit(n % 16)]
    } else {
        seq![c]
    }
}

/// The characters of a text as they stand in a JSON string.
pub open spec fn json_chars(s: Seq<char>) -> Seq<char>
    decreases s.len(),
{
    if s.len() == 0 {
        Seq::empty()
    } else {
        json_chars(s.drop_last()) + json_char(s.last())
    }
}

/// A text as a JSON string.
pub open spec fn json_quoted(s: Seq<char>) -> Seq<char> {
    seq!['"'] + json_chars(s) + seq!['"']
}

/// `serde_json::to_string` on a text gives the JSON string for it: in quotation
/// marks, which together with the backslash and the control characters are
/// escaped. It does not fail on a text.
#[verifier::external_body]
pub(crate) fn json_string(s: &str) -> (r: String)
    ensures
        r@ == json_quoted(s@),
{
    serde_json::to_string(s).unwrap_or_default()
}

}
