//! What JSON texts promise of the values in them.

use vstd::prelude::*;

use crate::dumps::{ascii_char, ascii_chars, ascii_quoted, dumped, dumped_entries, dumped_items};
use crate::number::dec;
use crate::text::join;
use crate::value::Val;

verus! {

/// What has no parts, as JSON has it.
pub proof fn words_of_json(n: nat)
    ensures
        dumped(Val::Null) == "null"@,
        dumped(Val::Bool(true)) == "true"@,
        dumped(Val::Bool(false)) == "false"@,
        dumped(Val::Int(n as int)) == dec(n),
{
}

/// A list has its items in brackets, with a comma and a space between them.
pub proof fn lists_in_brackets(a: Val, b: Val)
    ensures
        dumped(Val::Array(Seq::empty())) == "["@ + "]"@,
        dumped(Val::Array(seq![a])) == "["@ + dumped(a) + "]"@,
        dumped(Val::Array(seq![a, b])) == "["@ + dumped(a) + ", "@ + dumped(b) + "]"@,
{
    let none = Seq::<Val>::empty();
    assert(dumped_items(none) =~= Seq::empty());
    assert(join(Seq::empty(), ", "@) =~= Seq::empty());
    assert(dumped(Val::Array(none)) =~= "["@ + "]"@);
    let one = dumped_items(seq![a]);
    assert(one =~= seq![dumped(a)]);
    reveal_with_fuel(join, 3);
    assert(one.drop_last() =~= Seq::empty());
    assert(join(one, ", "@) =~= dumped(a));
    let two = dumped_items(seq![a, b]);
    assert(two =~= seq![dumped(a), dumped(b)]);
    assert(two.drop_last() =~= seq![dumped(a)]);
    assert(join(two, ", "@) =~= dumped(a) + ", "@ + dumped(b));
    assert("["@ + (dumped(a) + ", "@ + dumped(b)) + "]"@ =~= "["@ + dumped(a) + ", "@ + dumped(b) + "]"@);
}

/// A mapping has its entries in braces, the key in quotes before its value.
pub proof fn mappings_in_braces(key: Seq<char>, v: Val)
    ensures
        dumped(Val::Object(seq![(key, v)])) == "{"@ + ascii_quoted(key) + ": "@ + dumped(v) + "}"@,
{
    let one = dumped_entries(seq![(key, v)]);
    assert(one =~= seq![ascii_quoted(key) + ": "@ + dumped(v)]);
    reveal_with_fuel(join, 2);
    assert(one.drop_last() =~= Seq::empty());
    assert(join(one, ", "@) =~= one[0]);
    assert("{"@ + (ascii_quoted(key) + ": "@ + dumped(v)) + "}"@ =~= "{"@ + ascii_quoted(key) + ": "@ + dumped(v)
        + "}"@);
}

/// A text of printable characters without quotation marks and backslashes stands as it
/// is between quotation marks.
pub proof fn plain_texts_in_quotes(s: Seq<char>)
    requires
        forall|i: int|
            0 <= i < s.len() ==> 0x20 <= #[trigger] s[i] as u32 <= 0x7e && s[i] != '"' && s[i] != '\\',
    ensures
        ascii_quoted(s) == seq!['"'] + s + seq!['"'],
{
    plain_characters(s);
    assert(ascii_quoted(s) =~= seq!['"'] + s + seq!['"']);
}

proof fn plain_characters(s: Seq<char>)
    requires
        forall|i: int|
            0 <= i < s.len() ==> 0x20 <= #[trigger] s[i] as u32 <= 0x7e && s[i] != '"' && s[i] != '\\',
    ensures
        ascii_chars(s) == s,
    decreases s.len(),
{
    if s.len() > 0 {
        let less = s.drop_last();
        assert forall|i: int| 0 <= i < less.len() implies 0x20 <= #[trigger] less[i] as u32 <= 0x7e && less[i] != '"'
            && less[i] != '\\' by {
            assert(less[i] == s[i]);
        }
        plain_characters(less);
        assert(s[s.len() - 1] == s.last());
        assert(s =~= less + seq![s.last()]);
    } else {
        assert(ascii_chars(s) =~= s);
    }
}

/// The characters that are written otherwise.
pub proof fn escaped_characters()
    ensures
        ascii_char('"') == seq!['\\', '"'],
        ascii_char('\\') == seq!['\\', '\\'],
        ascii_char('\n') == seq!['\\', 'n'],
        ascii_char('\t') == seq!['\\', 't'],
        ascii_char('\r') == seq!['\\', 'r'],
{
}

} // verus!
