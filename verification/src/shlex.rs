//! Splitting a line into words the way a shell does.

use vstd::prelude::*;

use crate::text::{chars_of, prepend, prepend_empty, prepend_push, texts, texts_push};

verus! {

/// Where in a line a character stands.
#[derive(Clone, Copy, PartialEq, Eq, Structural)]
pub enum Place {
    /// Between words.
    Gap,
    /// In a word, outside quotes.
    Word,
    /// Between apostrophes.
    Single,
    /// Between quotation marks.
    Double,
    /// Behind a backslash outside quotes.
    Escape,
    /// Behind a backslash between quotation marks.
    DoubleEscape,
}

pub open spec fn is_gap(c: char) -> bool {
    c == ' ' || c == '\t' || c == '\r' || c == '\n'
}

/// What a character does: the place behind it, what it adds to the word, and
/// whether it ends the word.
pub open spec fn step(at: Place, c: char) -> (Place, Seq<char>, bool) {
    match at {
        Place::Gap | Place::Word => if is_gap(c) {
            (Place::Gap, Seq::empty(), at == Place::Word)
        } else if c == '\\' {
            (Place::Escape, Seq::empty(), false)
        } else if c == '\'' {
            (Place::Single, Seq::empty(), false)
        } else if c == '"' {
            (Place::Double, Seq::empty(), false)
        } else {
            (Place::Word, seq![c], false)
        },
        Place::Single => if c == '\'' {
            (Place::Word, Seq::empty(), false)
        } else {
            (Place::Single, seq![c], false)
        },
        Place::Double => if c == '"' {
            (Place::Word, Seq::empty(), false)
        } else if c == '\\' {
            (Place::DoubleEscape, Seq::empty(), false)
        } else {
            (Place::Double, seq![c], false)
        },
        Place::Escape => (Place::Word, seq![c], false),
        Place::DoubleEscape => (
            Place::Double,
            if c == '\\' || c == '"' {
                seq![c]
            } else {
                seq!['\\', c]
            },
            false,
        ),
    }
}

/// The words of what is left of a line, in a place and with the beginning of a
/// word read.
pub open spec fn words_from(s: Seq<char>, at: Place, word: Seq<char>) -> Result<Seq<Seq<char>>, Seq<char>>
    decreases s.len(),
{
    if s.len() == 0 {
        match at {
            Place::Gap => Ok(Seq::empty()),
            Place::Word => Ok(seq![word]),
            Place::Single | Place::Double => Err("No closing quotation"@),
            Place::Escape | Place::DoubleEscape => Err("No escaped character"@),
        }
    } else {
        let (next, added, ends) = step(at, s[0]);
        if ends {
            match words_from(s.skip(1), next, Seq::empty()) {
                Ok(rest) => Ok(seq![word] + rest),
                Err(e) => Err(e),
            }
        } else {
            words_from(s.skip(1), next, word + added)
        }
    }
}

/// The words of a line.
pub open spec fn shell_words(s: Seq<char>) -> Result<Seq<Seq<char>>, Seq<char>> {
    words_from(s, Place::Gap, Seq::empty())
}

/// The words of a line, or what is wrong with it.
pub fn split(line: &str) -> (r: Result<Vec<String>, String>)
    ensures
        match r {
            Ok(v) => shell_words(line@) == Ok::<Seq<Seq<char>>, Seq<char>>(texts(v@)),
            Err(e) => shell_words(line@) == Err::<Seq<Seq<char>>, Seq<char>>(e@),
        },
{
    broadcast use texts_push;
    let a = chars_of(line);
    let mut at = Place::Gap;
    let mut word = String::new();
    let mut out: Vec<String> = Vec::new();
    let mut i: usize = 0;
    assert(a@.skip(0) =~= a@);
    proof {
        prepend_empty(shell_words(line@));
    }
    assert(texts(out@) =~= Seq::empty());
    while i < a.len()
        invariant
            a@ == line@,
            i <= a@.len(),
            prepend(texts(out@), words_from(a@.skip(i as int), at, word@)) == shell_words(line@),
        decreases a.len() - i,
    {
        let c = a[i];
        let ghost rest = a@.skip(i as int);
        let ghost word0 = word@;
        let ghost out0 = texts(out@);
        assert(rest[0] == c);
        assert(rest.skip(1) =~= a@.skip(i + 1));
        let gap = c == ' ' || c == '\t' || c == '\r' || c == '\n';
        let mut ended = false;
        let ghost before = at;
        match at {
            Place::Gap | Place::Word => {
                if gap {
                    ended = matches!(at, Place::Word);
                    at = Place::Gap;
                } else if c == '\\' {
                    at = Place::Escape;
                } else if c == '\'' {
                    at = Place::Single;
                } else if c == '"' {
                    at = Place::Double;
                } else {
                    word.push(c);
                    at = Place::Word;
                }
            },
            Place::Single => {
                if c == '\'' {
                    at = Place::Word;
                } else {
                    word.push(c);
                }
            },
            Place::Double => {
                if c == '"' {
                    at = Place::Word;
                } else if c == '\\' {
                    at = Place::DoubleEscape;
                } else {
                    word.push(c);
                }
            },
            Place::Escape => {
                word.push(c);
                at = Place::Word;
            },
            Place::DoubleEscape => {
                if c != '\\' && c != '"' {
                    word.push('\\');
                }
                word.push(c);
                at = Place::Double;
            },
        }
        assert(word@ =~= word0 + step(before, c).1);
        assert(at == step(before, c).0 && ended == step(before, c).2);
        assert(words_from(rest, before, word0) == if ended {
            prepend(seq![word0], words_from(a@.skip(i + 1), at, Seq::empty()))
        } else {
            words_from(a@.skip(i + 1), at, word@)
        });
        if ended {
            assert(word@ =~= word0);
            out.push(word);
            word = String::new();
            assert(word@ =~= Seq::empty());
            proof {
                assert(texts(out@) == out0.push(word0));
                prepend_push(out0, word0, words_from(a@.skip(i + 1), at, Seq::empty()));
            }
        }
        i += 1;
    }
    match at {
        Place::Gap => {
            assert(texts(out@) + Seq::<Seq<char>>::empty() =~= texts(out@));
            Ok(out)
        },
        Place::Word => {
            assert(texts(out@) + seq![word@] =~= texts(out@).push(word@));
            out.push(word);
            Ok(out)
        },
        Place::Single | Place::Double => Err("No closing quotation".to_owned()),
        Place::Escape | Place::DoubleEscape => Err("No escaped character".to_owned()),
    }
}

// ---------------------------------------------------------------------------
// Quoting

/// Whether a character means itself to a shell.
pub open spec fn is_safe(c: char) -> bool {
    'a' <= c <= 'z' || 'A' <= c <= 'Z' || '0' <= c <= '9' || c == '_' || c == '@' || c == '%' || c == '+' || c == '='
        || c == ':' || c == ',' || c == '.' || c == '/' || c == '-'
}

/// How a character is written between apostrophes: an apostrophe ends them, and
/// stands between quotation marks.
pub open spec fn written(c: char) -> Seq<char> {
    if c == '\'' {
        seq!['\'', '"', '\'', '"', '\'']
    } else {
        seq![c]
    }
}

/// How a text is written between apostrophes.
pub open spec fn written_text(s: Seq<char>) -> Seq<char>
    decreases s.len(),
{
    if s.len() == 0 {
        Seq::empty()
    } else {
        written(s[0]) + written_text(s.skip(1))
    }
}

/// A text as one word of a line.
pub open spec fn shell_quoted(s: Seq<char>) -> Seq<char> {
    if s.len() > 0 && forall|i: int| 0 <= i < s.len() ==> is_safe(#[trigger] s[i]) {
        s
    } else {
        seq!['\''] + written_text(s) + seq!['\'']
    }
}

fn all_safe(a: &Vec<char>) -> (r: bool)
    ensures
        r == (forall|i: int| 0 <= i < a@.len() ==> is_safe(#[trigger] a@[i])),
{
    let mut i: usize = 0;
    while i < a.len()
        invariant
            i <= a@.len(),
            forall|j: int| 0 <= j < i ==> is_safe(#[trigger] a@[j]),
        decreases a.len() - i,
    {
        let c = a[i];
        let safe = 'a' <= c && c <= 'z' || 'A' <= c && c <= 'Z' || '0' <= c && c <= '9' || c == '_' || c == '@' || c
            == '%' || c == '+' || c == '=' || c == ':' || c == ',' || c == '.' || c == '/' || c == '-';
        if !safe {
            assert(!is_safe(a@[i as int]));
            return false;
        }
        i += 1;
    }
    true
}

/// A text as one word of a line.
pub fn shell_quote(s: &str) -> (r: String)
    ensures
        r@ == shell_quoted(s@),
{
    let a = chars_of(s);
    if a.len() > 0 && all_safe(&a) {
        return s.to_owned();
    }
    let mut out = String::new();
    out.push('\'');
    let mut i: usize = 0;
    assert(a@.skip(0) =~= a@);
    assert(out@ + written_text(a@.skip(0)) =~= seq!['\''] + written_text(s@));
    while i < a.len()
        invariant
            a@ == s@,
            i <= a@.len(),
            out@ + written_text(a@.skip(i as int)) == seq!['\''] + written_text(s@),
        decreases a.len() - i,
    {
        let ghost before = out@;
        let ghost rest = a@.skip(i as int);
        assert(rest[0] == a@[i as int]);
        assert(rest.skip(1) =~= a@.skip(i + 1));
        if a[i] == '\'' {
            out.push('\'');
            out.push('"');
            out.push('\'');
            out.push('"');
            out.push('\'');
        } else {
            out.push(a[i]);
        }
        assert(out@ =~= before + written(rest[0]));
        assert(out@ + written_text(rest.skip(1)) =~= before + written_text(rest));
        i += 1;
    }
    assert(a@.skip(i as int).len() == 0);
    assert(out@ =~= seq!['\''] + written_text(s@));
    out.push('\'');
    out
}

proof fn written_is_read(s: Seq<char>, word: Seq<char>)
    ensures
        words_from(written_text(s) + seq!['\''], Place::Single, word) == Ok::<Seq<Seq<char>>, Seq<char>>(seq![word + s]),
    decreases s.len(),
{
    let all = written_text(s) + seq!['\''];
    if s.len() == 0 {
        assert(all =~= seq!['\'']);
        assert(all.skip(1) =~= Seq::empty());
        assert(word + Seq::<char>::empty() =~= word);
        assert(s =~= Seq::empty());
        reveal_with_fuel(words_from, 2);
    } else {
        let rest = written_text(s.skip(1)) + seq!['\''];
        written_is_read(s.skip(1), word + seq![s[0]]);
        assert(word + seq![s[0]] + s.skip(1) =~= word + s);
        if s[0] == '\'' {
            assert(all =~= seq!['\'', '"', '\'', '"', '\''] + rest);
            assert(all.skip(1) =~= seq!['"', '\'', '"', '\''] + rest);
            assert(all.skip(1).skip(1) =~= seq!['\'', '"', '\''] + rest);
            assert(all.skip(1).skip(1).skip(1) =~= seq!['"', '\''] + rest);
            assert(all.skip(1).skip(1).skip(1).skip(1) =~= seq!['\''] + rest);
            assert(all.skip(1).skip(1).skip(1).skip(1).skip(1) =~= rest);
            assert(word + Seq::<char>::empty() =~= word);
            assert(word + seq!['\''] + Seq::<char>::empty() =~= word + seq!['\'']);
            reveal_with_fuel(words_from, 6);
        } else {
            assert(all =~= seq![s[0]] + rest);
            assert(all.skip(1) =~= rest);
        }
    }
}

proof fn safe_is_read(s: Seq<char>, at: Place, word: Seq<char>)
    requires
        at == Place::Word || at == Place::Gap && s.len() > 0,
        forall|i: int| 0 <= i < s.len() ==> is_safe(#[trigger] s[i]),
    ensures
        words_from(s, at, word) == Ok::<Seq<Seq<char>>, Seq<char>>(seq![word + s]),
    decreases s.len(),
{
    if s.len() == 0 {
        assert(word + s =~= word);
    } else {
        assert(is_safe(s[0]));
        assert forall|i: int| 0 <= i < s.skip(1).len() implies is_safe(#[trigger] s.skip(1)[i]) by {
            assert(s.skip(1)[i] == s[i + 1]);
        }
        safe_is_read(s.skip(1), Place::Word, word + seq![s[0]]);
        assert(word + seq![s[0]] + s.skip(1) =~= word + s);
    }
}

/// Quoting is undone by splitting: a quoted text is one word, which is the text.
pub proof fn quoted_is_one_word(s: Seq<char>)
    ensures
        shell_words(shell_quoted(s)) == Ok::<Seq<Seq<char>>, Seq<char>>(seq![s]),
{
    assert(Seq::<char>::empty() + s =~= s);
    if s.len() > 0 && forall|i: int| 0 <= i < s.len() ==> is_safe(#[trigger] s[i]) {
        safe_is_read(s, Place::Gap, Seq::empty());
    } else {
        let all = shell_quoted(s);
        assert(all[0] == '\'');
        assert(all.skip(1) =~= written_text(s) + seq!['\'']);
        assert(Seq::<char>::empty() + Seq::<char>::empty() =~= Seq::empty());
        written_is_read(s, Seq::empty());
    }
}

}
