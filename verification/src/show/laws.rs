//! What the words promise that switch something on or off.

use vstd::prelude::*;

use crate::number::dec_int;
use crate::show::{
    escape_char, escaped, plain, quoted, repr, repr_entries, reprs, show, switched_off, switched_on, truthy,
};
use crate::space::fold;
use crate::text::join;
use crate::value::Val;

verus! {

/// A word of small letters and digits is plain as it is.
pub proof fn a_plain_word(s: Seq<char>)
    requires
        forall|i: int| 0 <= i < s.len() ==> 0x30 <= #[trigger] s[i] as u32 <= 0x39 || 0x61 <= s[i] as u32 <= 0x7a,
    ensures
        plain(Val::Text(s)) == s,
{
    assert(fold(s) =~= s);
    if s.len() > 0 {
        assert(0x30 <= s[0] as u32);
        assert(0x30 <= s[s.len() - 1] as u32);
    }
}

/// The mode that leaves the choice open is neither on nor off.
pub proof fn plain_auto()
    ensures
        plain(Val::Text("auto"@)) == "auto"@,
        !switched_off(Val::Text("auto"@)),
        !switched_on(Val::Text("auto"@)),
{
    reveal_strlit("auto");
    reveal_strlit("off");
    reveal_strlit("0");
    reveal_strlit("no");
    reveal_strlit("false");
    reveal_strlit("true");
    reveal_strlit("1");
    reveal_strlit("on");
    reveal_strlit("yes");
    a_plain_word("auto"@);
    assert("auto"@.len() == 4 && "off"@.len() == 3 && "0"@.len() == 1 && "no"@.len() == 2 && "false"@.len() == 5);
    assert("true"@.len() == 4 && "1"@.len() == 1 && "on"@.len() == 2 && "yes"@.len() == 3);
    assert("auto"@[0] == 'a' && "true"@[0] == 't');
}

/// The words that switch something on: they are not words that switch it off.
pub proof fn words_that_switch_on()
    ensures
        switched_on(Val::Text("true"@)) && !switched_off(Val::Text("true"@)),
        switched_on(Val::Text("1"@)) && !switched_off(Val::Text("1"@)),
        switched_on(Val::Text("on"@)) && !switched_off(Val::Text("on"@)),
        switched_on(Val::Text("yes"@)) && !switched_off(Val::Text("yes"@)),
        switched_on(Val::Bool(true)) && !switched_off(Val::Bool(true)),
{
    reveal_strlit("off");
    reveal_strlit("0");
    reveal_strlit("no");
    reveal_strlit("false");
    reveal_strlit("true");
    reveal_strlit("1");
    reveal_strlit("on");
    reveal_strlit("yes");
    a_plain_word("true"@);
    a_plain_word("1"@);
    a_plain_word("on"@);
    a_plain_word("yes"@);
    assert("off"@.len() == 3 && "0"@.len() == 1 && "no"@.len() == 2 && "false"@.len() == 5);
    assert("true"@.len() == 4 && "1"@.len() == 1 && "on"@.len() == 2 && "yes"@.len() == 3);
    assert("off"@[0] == 'o' && "yes"@[0] == 'y' && "no"@[0] == 'n' && "on"@[0] == 'o' && "0"@[0] == '0' && "1"@[0]
        == '1');
}

/// The words that switch something off: they are not words that switch it on.
pub proof fn words_that_switch_off()
    ensures
        switched_off(Val::Text("false"@)) && !switched_on(Val::Text("false"@)),
        switched_off(Val::Text("0"@)) && !switched_on(Val::Text("0"@)),
        switched_off(Val::Text("off"@)) && !switched_on(Val::Text("off"@)),
        switched_off(Val::Text("no"@)) && !switched_on(Val::Text("no"@)),
        switched_off(Val::Bool(false)) && !switched_on(Val::Bool(false)),
{
    reveal_strlit("off");
    reveal_strlit("0");
    reveal_strlit("no");
    reveal_strlit("false");
    reveal_strlit("true");
    reveal_strlit("1");
    reveal_strlit("on");
    reveal_strlit("yes");
    a_plain_word("false"@);
    a_plain_word("0"@);
    a_plain_word("off"@);
    a_plain_word("no"@);
    assert("off"@.len() == 3 && "0"@.len() == 1 && "no"@.len() == 2 && "false"@.len() == 5);
    assert("true"@.len() == 4 && "1"@.len() == 1 && "on"@.len() == 2 && "yes"@.len() == 3);
    assert("off"@[0] == 'o' && "yes"@[0] == 'y' && "no"@[0] == 'n' && "on"@[0] == 'o' && "0"@[0] == '0' && "1"@[0]
        == '1');
}

/// Nothing switches something on and off.
pub proof fn on_is_not_off(v: Val)
    ensures
        !(switched_on(v) && switched_off(v)),
{
    reveal_strlit("off");
    reveal_strlit("0");
    reveal_strlit("no");
    reveal_strlit("false");
    reveal_strlit("true");
    reveal_strlit("1");
    reveal_strlit("on");
    reveal_strlit("yes");
    assert("off"@.len() == 3 && "0"@.len() == 1 && "no"@.len() == 2 && "false"@.len() == 5);
    assert("true"@.len() == 4 && "1"@.len() == 1 && "on"@.len() == 2 && "yes"@.len() == 3);
    assert("off"@[0] == 'o' && "yes"@[0] == 'y' && "no"@[0] == 'n' && "on"@[0] == 'o' && "0"@[0] == '0' && "1"@[0]
        == '1');
}

/// Words as values are printed, and what counts as true.
pub proof fn printed_words(n: int, text: Seq<char>)
    ensures
        show(Val::Text(text)) == text,
        show(Val::Null) == "None"@ && !truthy(Val::Null),
        show(Val::Bool(true)) == "True"@ && truthy(Val::Bool(true)),
        show(Val::Bool(false)) == "False"@ && !truthy(Val::Bool(false)),
        show(Val::Int(n)) == dec_int(n),
        truthy(Val::Int(n)) <==> n != 0,
        truthy(Val::Text(text)) <==> text.len() > 0,
        !truthy(Val::Array(Seq::empty())) && !truthy(Val::Object(Seq::empty())),
{
}

/// A text without quotes, backslashes and control characters is printed in apostrophes as
/// it is.
pub proof fn plain_texts_in_apostrophes(s: Seq<char>)
    requires
        forall|i: int|
            0 <= i < s.len() ==> 0x20 <= #[trigger] s[i] as u32 <= 0x7e && s[i] != '\'' && s[i] != '\\',
    ensures
        quoted(s) == seq!['\''] + s + seq!['\''],
        repr(Val::Text(s)) == seq!['\''] + s + seq!['\''],
{
    assert(!s.contains('\'')) by {
        if s.contains('\'') {
            let i = choose|i: int| 0 <= i < s.len() && s[i] == '\'';
            assert(s[i] != '\'');
        }
    }
    plain_characters(s);
}

proof fn plain_characters(s: Seq<char>)
    requires
        forall|i: int|
            0 <= i < s.len() ==> 0x20 <= #[trigger] s[i] as u32 <= 0x7e && s[i] != '\'' && s[i] != '\\',
    ensures
        escaped(s, '\'') == s,
    decreases s.len(),
{
    if s.len() > 0 {
        let less = s.drop_last();
        assert forall|i: int| 0 <= i < less.len() implies 0x20 <= #[trigger] less[i] as u32 <= 0x7e && less[i] != '\''
            && less[i] != '\\' by {
            assert(less[i] == s[i]);
        }
        plain_characters(less);
        assert(0x20 <= s[s.len() - 1] as u32 <= 0x7e);
        assert(s[s.len() - 1] == s.last());
        assert(escape_char(s.last(), '\'') == seq![s.last()]);
        assert(s =~= less + seq![s.last()]);
    } else {
        assert(escaped(s, '\'') =~= s);
    }
}

/// A list is printed in brackets and a mapping in braces.
pub proof fn printed_in_brackets(a: Val, b: Val, key: Seq<char>)
    ensures
        repr(Val::Array(seq![a, b])) == "["@ + repr(a) + ", "@ + repr(b) + "]"@,
        repr(Val::Object(seq![(key, a)])) == "{"@ + quoted(key) + ": "@ + repr(a)
            + "}"@,
{
    let two = reprs(seq![a, b]);
    let x = repr(a);
    let y = repr(b);
    assert(two =~= seq![x, y]);
    reveal_with_fuel(join, 3);
    assert(two.drop_last() =~= seq![x]);
    assert(seq![x].drop_last() =~= Seq::empty());
    assert(join(two, ", "@) =~= x + ", "@ + y);
    assert("["@ + (x + ", "@ + y) + "]"@ =~= "["@ + x + ", "@ + y + "]"@);
    let one = repr_entries(seq![(key, a)]);
    let k = quoted(key);
    assert(one =~= seq![k + ": "@ + x]);
    assert(one.drop_last() =~= Seq::empty());
    assert(join(one, ", "@) =~= one[0]);
    assert("{"@ + (k + ": "@ + x) + "}"@ =~= "{"@ + k + ": "@ + x + "}"@);
}

} // verus!
