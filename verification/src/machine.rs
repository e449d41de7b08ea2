//! A machine as the modules see it: something that is asked, and answers.

use vstd::prelude::*;

use crate::text::{cat5, opt_text, same};

verus! {

/// What was asked of a machine so far, and the state it is in now.
pub struct Machine<C, W> {
    pub calls: Seq<C>,
    pub world: W,
}

/// The machine after a call that left it in the state `world`.
pub open spec fn asked<C, W>(m: Machine<C, W>, call: C, world: W) -> Machine<C, W> {
    Machine { calls: m.calls.push(call), world }
}

/// What an association list holds under a key: the first match.
pub open spec fn lookup<T>(table: Seq<(Seq<char>, T)>, key: Seq<char>) -> Option<T>
    decreases table.len(),
{
    if table.len() == 0 {
        None
    } else if table[0].0 == key {
        Some(table[0].1)
    } else {
        lookup(table.skip(1), key)
    }
}

/// A machine `before` was asked `call`; by its rule the next state and the answer
/// are `reply`. It is now the machine `after`, and it answered `answer`.
pub open spec fn answers<C, W, A>(
    before: Machine<C, W>,
    call: C,
    reply: (W, A),
    after: Machine<C, W>,
    answer: A,
) -> bool {
    after == asked(before, call, reply.0) && reply.1 == answer
}

/// How much a line of the log matters.
#[derive(Debug, Clone, Copy, PartialEq, Eq, Structural)]
pub enum Level {
    Debug,
    Info,
    Warning,
    Deprecated,
}

pub open spec fn level_text(level: Level) -> Seq<char> {
    match level {
        Level::Debug => "DEBUG"@,
        Level::Info => "INFO"@,
        Level::Warning => "WARNING"@,
        Level::Deprecated => "DEPRECATED"@,
    }
}

/// The name of a level, as the log writes it.
pub fn level_name(level: Level) -> (r: &'static str)
    ensures
        r@ == level_text(level),
{
    match level {
        Level::Debug => "DEBUG",
        Level::Info => "INFO",
        Level::Warning => "WARNING",
        Level::Deprecated => "DEPRECATED",
    }
}

/// A line of the log: what it comes from, its level and its text.
pub open spec fn log_line(level: Level, source: Seq<char>, text: Seq<char>) -> Seq<char> {
    source + "["@ + level_text(level) + "]: "@ + text
}

/// A line as the log writes it.
pub fn log_line_of(level: Level, source: &str, text: &str) -> (r: String)
    ensures
        r@ == log_line(level, source@, text@),
{
    cat5(source, "[", level_name(level), "]: ", text)
}

/// An association list of texts.
pub open spec fn text_table(t: Seq<(String, String)>) -> Seq<(Seq<char>, Seq<char>)> {
    Seq::new(t.len(), |i: int| (t[i].0@, t[i].1@))
}

/// The text under a key.
pub fn lookup_text(table: &Vec<(String, String)>, key: &str) -> (r: Option<String>)
    ensures
        opt_text(r) == lookup(text_table(table@), key@),
{
    let ghost t = text_table(table@);
    let mut i: usize = 0;
    assert(t.skip(0) =~= t);
    while i < table.len()
        invariant
            i <= table@.len(),
            t == text_table(table@),
            lookup(t.skip(i as int), key@) == lookup(t, key@),
        decreases table.len() - i,
    {
        if same(table[i].0.as_str(), key) {
            return Some(table[i].1.clone());
        }
        assert(t.skip(i as int).skip(1) =~= t.skip(i + 1));
        i += 1;
    }
    None
}

/// A table with a key set: in its place where it was there, else last.
pub open spec fn table_set(table: Seq<(Seq<char>, Seq<char>)>, key: Seq<char>, value: Seq<char>) -> Seq<
    (Seq<char>, Seq<char>),
>
    decreases table.len(),
{
    if table.len() == 0 {
        seq![(key, value)]
    } else if table[0].0 == key {
        seq![(key, value)] + table.skip(1)
    } else {
        seq![table[0]] + table_set(table.skip(1), key, value)
    }
}

pub fn set_in_table(table: &mut Vec<(String, String)>, key: &str, value: &str)
    ensures
        text_table(final(table)@) == table_set(text_table(old(table)@), key@, value@),
{
    let ghost all = text_table(table@);
    let mut i: usize = 0;
    assert(all.skip(0) =~= all);
    assert(all.take(0) + table_set(all, key@, value@) =~= table_set(all, key@, value@));
    while i < table.len()
        invariant
            i <= table@.len(),
            all == text_table(table@),
            table@ == old(table)@,
            all.take(i as int) + table_set(all.skip(i as int), key@, value@) == table_set(all, key@, value@),
        decreases table.len() - i,
    {
        assert(all.skip(i as int)[0] == all[i as int]);
        assert(all.skip(i as int).skip(1) =~= all.skip(i + 1));
        if same(table[i].0.as_str(), key) {
            table.set(i, (key.to_owned(), value.to_owned()));
            assert(text_table(table@) =~= all.take(i as int) + (seq![(key@, value@)] + all.skip(i + 1)));
            return;
        }
        assert(all.take(i + 1) + table_set(all.skip(i + 1), key@, value@) =~= all.take(i as int) + (
        seq![all[i as int]] + table_set(all.skip(i + 1), key@, value@)));
        i += 1;
    }
    table.push((key.to_owned(), value.to_owned()));
    assert(all.take(i as int) =~= all);
    assert(text_table(table@) =~= all + seq![(key@, value@)]);
}

/// A key that was set has its value, and the others keep theirs.
pub proof fn others_are_kept(
    table: Seq<(Seq<char>, Seq<char>)>,
    key: Seq<char>,
    value: Seq<char>,
    other: Seq<char>,
)
    ensures
        lookup(table_set(table, key, value), key) == Some(value),
        other != key ==> lookup(table_set(table, key, value), other) == lookup(table, other),
    decreases table.len(),
{
    let after = table_set(table, key, value);
    if table.len() == 0 {
        assert(after.skip(1) =~= Seq::empty());
        assert(lookup(after.skip(1), other) is None);
    } else if table[0].0 == key {
        assert(after.skip(1) =~= table.skip(1));
    } else {
        others_are_kept(table.skip(1), key, value, other);
        assert(after.skip(1) =~= table_set(table.skip(1), key, value));
    }
}

}
