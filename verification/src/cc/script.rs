//! Commands of a configuration as a script for the shell.

use vstd::prelude::*;

use crate::shlex::{shell_words, words_from, Place};
use crate::show::{kind_name, kind_text, py_str, show, shown_list, shows};
use crate::text::{
    cat3, cat4, chars_of, join, join_from_front, join_with, prepend, prepend_empty, prepend_push, texts, texts_push,
};
use crate::value::{vals, Node, Val};

verus! {

/// How a character is written between apostrophes: an apostrophe ends them, stands
/// behind a backslash, and begins new ones.
pub open spec fn written(c: char) -> Seq<char> {
    if c == '\'' {
        seq!['\'', '\\', '\'', '\'']
    } else {
        seq![c]
    }
}

pub open spec fn written_text(s: Seq<char>) -> Seq<char>
    decreases s.len(),
{
    if s.len() == 0 {
        Seq::empty()
    } else {
        written(s[0]) + written_text(s.skip(1))
    }
}

/// A text between apostrophes.
pub open spec fn apostrophed(s: Seq<char>) -> Seq<char> {
    seq!['\''] + written_text(s) + seq!['\'']
}

pub fn quote(s: &str) -> (r: String)
    ensures
        r@ == apostrophed(s@),
{
    let a = chars_of(s);
    let mut out = String::new();
    out.push('\'');
    let mut i: usize = 0;
    assert(a@.skip(0) =~= a@);
    assert(out@ + written_text(a@.skip(0)) =~= seq!['\''] + written_text(s@));
    while i < a.len()
        invariant
            a@ == s@,
            i <= a@.len(),
            out@ + written_text(a@.skip(i as int)) == seq!['\''] + written_text(s@),
        decreases a.len() - i,
    {
        let ghost before = out@;
        let ghost rest = a@.skip(i as int);
        assert(rest[0] == a@[i as int]);
        assert(rest.skip(1) =~= a@.skip(i + 1));
        if a[i] == '\'' {
            out.push('\'');
            out.push('\\');
            out.push('\'');
            out.push('\'');
        } else {
            out.push(a[i]);
        }
        assert(out@ =~= before + written(rest[0]));
        assert(out@ + written_text(rest.skip(1)) =~= before + written_text(rest));
        i += 1;
    }
    assert(a@.skip(i as int).len() == 0);
    assert(out@ =~= seq!['\''] + written_text(s@));
    out.push('\'');
    out
}

/// Arguments, each between apostrophes.
pub open spec fn arguments(args: Seq<Seq<char>>) -> Seq<Seq<char>> {
    Seq::new(args.len(), |i: int| apostrophed(args[i]))
}

fn quote_all(args: &Vec<String>) -> (r: Vec<String>)
    ensures
        texts(r@) == arguments(texts(args@)),
{
    let ghost all = texts(args@);
    let ghost want = arguments(all);
    let mut out: Vec<String> = Vec::new();
    let mut i: usize = 0;
    assert(texts(out@) =~= want.take(0));
    while i < args.len()
        invariant
            i <= args@.len(),
            all == texts(args@),
            want == arguments(all),
            texts(out@) == want.take(i as int),
        decreases args.len() - i,
    {
        assert(all[i as int] == args@[i as int]@);
        let ghost before = texts(out@);
        out.push(quote(args[i].as_str()));
        assert(texts(out@) =~= before.push(want[i as int]));
        i += 1;
        assert(want.take(i as int) =~= want.take(i - 1).push(want[i - 1]));
    }
    assert(want.take(i as int) =~= want);
    out
}

/// The line for a command: a text is the line itself, of a list every argument is
/// quoted, and nothing has no line.
pub open spec fn command_line(item: Val) -> Result<Option<Seq<char>>, Seq<char>> {
    match item {
        Val::Null => Ok(None),
        Val::Text(source) => Ok(Some(source)),
        Val::Array(args) => Ok(Some(join(arguments(shows(args)), " "@))),
        _ => Err(
            "Unable to shellify type '"@ + kind_text(item) + "'. Expected list, string, tuple. Got: "@ + show(item),
        ),
    }
}

/// The lines for commands, or what is said of the first that has none.
pub open spec fn command_lines(items: Seq<Val>) -> Result<Seq<Seq<char>>, Seq<char>>
    decreases items.len(),
{
    if items.len() == 0 {
        Ok(Seq::empty())
    } else {
        match command_line(items[0]) {
            Err(e) => Err(e),
            Ok(None) => command_lines(items.skip(1)),
            Ok(Some(line)) => prepend(seq![line], command_lines(items.skip(1))),
        }
    }
}

/// Lines with a line feed behind each.
pub open spec fn ended(lines: Seq<Seq<char>>) -> Seq<char>
    decreases lines.len(),
{
    if lines.len() == 0 {
        Seq::empty()
    } else {
        ended(lines.drop_last()) + lines.last() + "\n"@
    }
}

/// The script for commands, and how many commands are in it.
pub open spec fn shellified(commands: Val) -> Result<(Seq<char>, nat), Seq<char>> {
    match commands {
        Val::Array(items) => match command_lines(items) {
            Ok(lines) => Ok(("#!/bin/sh\n"@ + ended(lines), lines.len())),
            Err(e) => Err(e),
        },
        _ => Err("Input to shellify was type '"@ + kind_text(commands) + "'. Expected list or tuple."@),
    }
}

pub open spec fn script_result(r: Result<(String, usize), String>) -> Result<(Seq<char>, nat), Seq<char>> {
    match r {
        Ok((script, made)) => Ok((script@, made as nat)),
        Err(e) => Err(e@),
    }
}

fn script_of(lines: &Vec<String>) -> (r: String)
    ensures
        r@ == "#!/bin/sh\n"@ + ended(texts(lines@)),
{
    let ghost all = texts(lines@);
    let mut script = "#!/bin/sh\n".to_owned();
    let mut i: usize = 0;
    assert(script@ =~= "#!/bin/sh\n"@ + ended(all.take(0)));
    while i < lines.len()
        invariant
            i <= lines@.len(),
            all == texts(lines@),
            script@ == "#!/bin/sh\n"@ + ended(all.take(i as int)),
        decreases lines.len() - i,
    {
        let ghost before = script@;
        script = cat3(script.as_str(), lines[i].as_str(), "\n");
        i += 1;
        assert(all.take(i as int).drop_last() =~= all.take(i - 1));
        assert(all.take(i as int).last() == all[i - 1]);
        assert(script@ =~= "#!/bin/sh\n"@ + ended(all.take(i as int)));
    }
    assert(all.take(i as int) =~= all);
    script
}

/// Commands as a script, and how many there are in it.
pub fn shellify(commands: &Node) -> (r: Result<(String, usize), String>)
    ensures
        script_result(r) == shellified(commands@),
{
    broadcast use texts_push;
    let items = match commands {
        Node::Array(items) => items,
        other => return Err(
            cat3("Input to shellify was type '", kind_name(other).as_str(), "'. Expected list or tuple."),
        ),
    };
    let ghost all = vals(items@);
    let mut lines: Vec<String> = Vec::new();
    let mut i: usize = 0;
    assert(all.skip(0) =~= all);
    assert(texts(lines@) =~= Seq::empty());
    proof {
        prepend_empty(command_lines(all));
    }
    while i < items.len()
        invariant
            i <= items@.len(),
            all == vals(items@),
            commands@ == Val::Array(all),
            prepend(texts(lines@), command_lines(all.skip(i as int))) == command_lines(all),
        decreases items.len() - i,
    {
        let ghost rest = all.skip(i as int);
        assert(rest[0] == items@[i as int]@);
        assert(rest.skip(1) =~= all.skip(i + 1));
        let line = match &items[i] {
            Node::Null => None,
            Node::Text(source) => Some(source.clone()),
            Node::Array(args) => Some(join_with(&quote_all(&shown_list(args)), " ")),
            other => return Err(
                cat4(
                    "Unable to shellify type '",
                    kind_name(other).as_str(),
                    "'. Expected list, string, tuple. Got: ",
                    py_str(other).as_str(),
                ),
            ),
        };
        if let Some(line) = line {
            let ghost before = texts(lines@);
            let ghost text = line@;
            lines.push(line);
            assert(texts(lines@) =~= before.push(text));
            proof {
                prepend_push(before, text, command_lines(rest.skip(1)));
            }
        }
        i += 1;
    }
    assert(texts(lines@) + Seq::<Seq<char>>::empty() =~= texts(lines@));
    assert(texts(lines@).len() == lines@.len());
    let made = lines.len();
    Ok((script_of(&lines), made))
}

// ---------------------------------------------------------------------------
// Laws

proof fn written_is_read(s: Seq<char>, rest: Seq<char>, word: Seq<char>)
    ensures
        words_from(written_text(s) + seq!['\''] + rest, Place::Single, word) == words_from(rest, Place::Word, word + s),
    decreases s.len(),
{
    let all = written_text(s) + seq!['\''] + rest;
    if s.len() == 0 {
        assert(all =~= seq!['\''] + rest);
        assert(all.skip(1) =~= rest);
        assert(s =~= Seq::empty());
        assert(word + s =~= word);
        assert(word + Seq::<char>::empty() =~= word);
    } else {
        let more = written_text(s.skip(1)) + seq!['\''] + rest;
        written_is_read(s.skip(1), rest, word + seq![s[0]]);
        assert(word + seq![s[0]] + s.skip(1) =~= word + s);
        assert(word + Seq::<char>::empty() =~= word);
        if s[0] == '\'' {
            assert(all =~= seq!['\'', '\\', '\'', '\''] + more);
            assert(all.skip(1) =~= seq!['\\', '\'', '\''] + more);
            assert(all.skip(1).skip(1) =~= seq!['\'', '\''] + more);
            assert(all.skip(1).skip(1).skip(1) =~= seq!['\''] + more);
            assert(all.skip(1).skip(1).skip(1).skip(1) =~= more);
            assert(word + seq!['\''] + Seq::<char>::empty() =~= word + seq!['\'']);
            reveal_with_fuel(words_from, 5);
        } else {
            assert(all =~= seq![s[0]] + more);
            assert(all.skip(1) =~= more);
        }
    }
}

proof fn argument_is_read(s: Seq<char>, rest: Seq<char>)
    ensures
        words_from(apostrophed(s) + rest, Place::Gap, Seq::empty()) == words_from(rest, Place::Word, s),
{
    let all = apostrophed(s) + rest;
    let inner = written_text(s) + seq!['\''] + rest;
    assert(all =~= seq!['\''] + inner);
    assert(all.skip(1) =~= inner);
    assert(Seq::<char>::empty() + Seq::<char>::empty() =~= Seq::<char>::empty());
    assert(Seq::<char>::empty() + s =~= s);
    written_is_read(s, rest, Seq::empty());
}

/// The arguments of a command reach it as they are, whatever is in them: the shell
/// reads the line of a list as just the words that the list holds.
pub proof fn arguments_stay_what_they_are(args: Seq<Seq<char>>)
    ensures
        shell_words(join(arguments(args), " "@)) == Ok::<Seq<Seq<char>>, Seq<char>>(args),
    decreases args.len(),
{
    reveal_strlit(" ");
    let line = join(arguments(args), " "@);
    if args.len() == 0 {
        assert(line =~= Seq::empty());
        assert(args =~= Seq::empty());
    } else if args.len() == 1 {
        assert(arguments(args)[0] == apostrophed(args[0]));
        assert(line == apostrophed(args[0]));
        assert(line =~= apostrophed(args[0]) + Seq::empty());
        argument_is_read(args[0], Seq::empty());
        assert(args =~= seq![args[0]]);
    } else {
        let more = join(arguments(args.skip(1)), " "@);
        join_from_front(arguments(args), " "@);
        assert(arguments(args).skip(1) =~= arguments(args.skip(1)));
        assert(line =~= apostrophed(args[0]) + (" "@ + more));
        argument_is_read(args[0], " "@ + more);
        assert((" "@ + more)[0] == ' ');
        assert((" "@ + more).skip(1) =~= more);
        arguments_stay_what_they_are(args.skip(1));
        assert(seq![args[0]] + args.skip(1) =~= args);
    }
}

proof fn lines_of_one_more(items: Seq<Val>, x: Val)
    ensures
        command_lines(items.push(x)) == (match command_lines(items) {
            Err(e) => Err(e),
            Ok(lines) => match command_line(x) {
                Err(e) => Err(e),
                Ok(None) => Ok(lines),
                Ok(Some(line)) => Ok(lines.push(line)),
            },
        }),
    decreases items.len(),
{
    reveal_with_fuel(command_lines, 2);
    let more = items.push(x);
    if items.len() == 0 {
        assert(more.skip(1) =~= Seq::empty());
        match command_line(x) {
            Ok(Some(line)) => {
                assert(seq![line] + Seq::<Seq<char>>::empty() =~= Seq::<Seq<char>>::empty().push(line));
            },
            _ => {},
        }
    } else {
        assert(more[0] == items[0]);
        assert(more.skip(1) =~= items.skip(1).push(x));
        lines_of_one_more(items.skip(1), x);
        match (command_line(items[0]), command_lines(items.skip(1)), command_line(x)) {
            (Ok(Some(first)), Ok(rest), Ok(Some(line))) => {
                assert(seq![first] + rest.push(line) =~= (seq![first] + rest).push(line));
            },
            _ => {},
        }
    }
}

/// No commands are an empty script for the shell. One more command that is a text is one
/// more line, as it is; one that is a list is a line of its words between apostrophes; and
/// nothing is no command.
pub proof fn one_more_command_is_one_more_line(items: Seq<Val>, source: Seq<char>, args: Seq<Val>, script: Seq<char>, made: nat)
    requires
        shellified(Val::Array(items)) == Ok::<(Seq<char>, nat), Seq<char>>((script, made)),
    ensures
        shellified(Val::Array(Seq::empty())) == Ok::<(Seq<char>, nat), Seq<char>>(("#!/bin/sh\n"@, 0)),
        shellified(Val::Array(items.push(Val::Null))) == Ok::<(Seq<char>, nat), Seq<char>>((script, made)),
        shellified(Val::Array(items.push(Val::Text(source)))) == Ok::<(Seq<char>, nat), Seq<char>>(
            (script + source + "\n"@, made + 1),
        ),
        shellified(Val::Array(items.push(Val::Array(args)))) == Ok::<(Seq<char>, nat), Seq<char>>(
            (script + join(arguments(shows(args)), " "@) + "\n"@, made + 1),
        ),
{
    let lines = command_lines(items)->Ok_0;
    let line = join(arguments(shows(args)), " "@);
    lines_of_one_more(items, Val::Null);
    lines_of_one_more(items, Val::Text(source));
    lines_of_one_more(items, Val::Array(args));
    assert(lines.push(source).drop_last() =~= lines);
    assert(lines.push(line).drop_last() =~= lines);
    assert("#!/bin/sh\n"@ + (ended(lines) + source + "\n"@) =~= script + source + "\n"@);
    assert("#!/bin/sh\n"@ + (ended(lines) + line + "\n"@) =~= script + line + "\n"@);
    assert("#!/bin/sh\n"@ + Seq::<char>::empty() =~= "#!/bin/sh\n"@);
}

}
