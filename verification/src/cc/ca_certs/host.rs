//! What changing the trusted certificates asks of the machine.

use vstd::prelude::*;

use crate::cc::{fail_as_scripted, failure, unit_result};
use crate::machine::{answers, asked, log_line, log_line_of, lookup, lookup_text, text_table, Level, Machine};
use crate::text::{cat2, join, join_with, opt_text, texts, texts_push};

verus! {

/// An optional text or an error.
pub open spec fn selection_result(r: Result<Option<String>, String>) -> Result<Option<Seq<char>>, Seq<char>> {
    match r {
        Ok(o) => Ok(opt_text(o)),
        Err(e) => Err(e@),
    }
}

/// A question to the machine.
pub enum Call {
    RemoveContents(Seq<char>),
    Selection(Seq<char>),
    WriteFile { path: Seq<char>, content: Seq<char> },
    SetSelections(Seq<char>),
    Subp(Seq<Seq<char>>),
    Report { level: Level, source: Seq<char>, text: Seq<char> },
}

/// The machine's answer to a question.
pub enum Answer {
    Done(Result<(), Seq<char>>),
    Selected(Result<Option<Seq<char>>, Seq<char>>),
    Nothing,
}

/// Everything that changing the trusted certificates asks of the machine.
///
/// A machine is a state and a rule: [`Host::reply`] gives, for a state and a
/// call, the next state and the answer.
pub trait Host: Sized {
    type World;

    spec fn machine(&self) -> Machine<Call, Self::World>;

    spec fn reply(world: Self::World, call: Call) -> (Self::World, Answer);

    /// Removes what is in a directory, and keeps the directory.
    fn remove_contents(&mut self, path: &str) -> (r: Result<(), String>)
        ensures
            answers(
                old(self).machine(),
                Call::RemoveContents(path@),
                Self::reply(old(self).machine().world, Call::RemoveContents(path@)),
                final(self).machine(),
                Answer::Done(unit_result(r)),
            ),
    ;

    /// The text of the file in which certificates are selected; nothing where there is no such file.
    fn selection(&mut self, path: &str) -> (r: Result<Option<String>, String>)
        ensures
            answers(
                old(self).machine(),
                Call::Selection(path@),
                Self::reply(old(self).machine().world, Call::Selection(path@)),
                final(self).machine(),
                Answer::Selected(selection_result(r)),
            ),
    ;

    /// Writes a file.
    fn write_file(&mut self, path: &str, content: &str) -> (r: Result<(), String>)
        ensures
            answers(
                old(self).machine(),
                Call::WriteFile { path: path@, content: content@ },
                Self::reply(old(self).machine().world, Call::WriteFile { path: path@, content: content@ }),
                final(self).machine(),
                Answer::Done(unit_result(r)),
            ),
    ;

    /// Hands answers to the package configuration.
    fn set_selections(&mut self, data: &str) -> (r: Result<(), String>)
        ensures
            answers(
                old(self).machine(),
                Call::SetSelections(data@),
                Self::reply(old(self).machine().world, Call::SetSelections(data@)),
                final(self).machine(),
                Answer::Done(unit_result(r)),
            ),
    ;

    /// Runs a command.
    fn subp(&mut self, argv: &Vec<String>) -> (r: Result<(), String>)
        ensures
            answers(
                old(self).machine(),
                Call::Subp(texts(argv@)),
                Self::reply(old(self).machine().world, Call::Subp(texts(argv@))),
                final(self).machine(),
                Answer::Done(unit_result(r)),
            ),
    ;

    /// Writes a line to the log, under the name of what it comes from.
    fn report(&mut self, level: Level, source: &str, text: &str)
        ensures
            final(self).machine() == asked(
                old(self).machine(),
                Call::Report { level, source: source@, text: text@ },
                Self::reply(old(self).machine().world, Call::Report { level, source: source@, text: text@ }).0,
            ),
    ;
}

/// A machine that the module works on.
pub type Store<H> = Machine<Call, <H as Host>::World>;

pub open spec fn ask_report<H: Host>(m: Store<H>, level: Level, source: Seq<char>, text: Seq<char>) -> Store<H> {
    let call = Call::Report { level, source, text };
    asked(m, call, H::reply(m.world, call).0)
}

/// The name under which the module writes to the log.
pub const SOURCE: &'static str = "cc_ca_certs.py";

/// A line that only helps to follow what happens.
pub open spec fn logged<H: Host>(m: Store<H>, text: Seq<char>) -> Store<H> {
    ask_report::<H>(m, Level::Debug, SOURCE@, text)
}

pub fn log_debug<H: Host>(host: &mut H, text: &str)
    ensures
        final(host).machine() == logged::<H>(old(host).machine(), text@),
{
    host.report(Level::Debug, SOURCE, text);
}

/// A warning.
pub open spec fn warned<H: Host>(m: Store<H>, text: Seq<char>) -> Store<H> {
    ask_report::<H>(m, Level::Warning, SOURCE@, text)
}

pub fn log_warn<H: Host>(host: &mut H, text: &str)
    ensures
        final(host).machine() == warned::<H>(old(host).machine(), text@),
{
    host.report(Level::Warning, SOURCE, text);
}

pub open spec fn ask_remove_contents<H: Host>(m: Store<H>, path: Seq<char>) -> (Store<H>, Result<(), Seq<char>>) {
    let (w, a) = H::reply(m.world, Call::RemoveContents(path));
    (asked(m, Call::RemoveContents(path), w), a->Done_0)
}

pub open spec fn ask_selection<H: Host>(m: Store<H>, path: Seq<char>) -> (Store<H>, Result<Option<Seq<char>>, Seq<char>>) {
    let (w, a) = H::reply(m.world, Call::Selection(path));
    (asked(m, Call::Selection(path), w), a->Selected_0)
}

pub open spec fn ask_write_file<H: Host>(m: Store<H>, path: Seq<char>, content: Seq<char>) -> (Store<H>, Result<(), Seq<char>>) {
    let (w, a) = H::reply(m.world, Call::WriteFile { path, content });
    (asked(m, Call::WriteFile { path, content }, w), a->Done_0)
}

pub open spec fn ask_set_selections<H: Host>(m: Store<H>, data: Seq<char>) -> (Store<H>, Result<(), Seq<char>>) {
    let (w, a) = H::reply(m.world, Call::SetSelections(data));
    (asked(m, Call::SetSelections(data), w), a->Done_0)
}

pub open spec fn ask_subp<H: Host>(m: Store<H>, argv: Seq<Seq<char>>) -> (Store<H>, Result<(), Seq<char>>) {
    let (w, a) = H::reply(m.world, Call::Subp(argv));
    (asked(m, Call::Subp(argv), w), a->Done_0)
}

// ---------------------------------------------------------------------------
// A scripted machine

/// A machine whose every answer is set up front, and which writes down what it
/// is asked.
pub struct Fixture {
    /// Calls that fail, by what is written down of them, and the message.
    pub errors: Vec<(String, String)>,
    /// Files, by path.
    pub files: Vec<(String, String)>,
    /// What was asked, in order.
    pub calls: Vec<String>,
    /// What was written, in order.
    pub written: Vec<(String, String)>,
    /// The lines of the log, in order.
    pub log: Vec<String>,
    /// The questions themselves.
    pub trace: Ghost<Seq<Call>>,
}

/// The script of a [`Fixture`] and what it wrote down.
pub struct Script {
    pub errors: Seq<(Seq<char>, Seq<char>)>,
    pub files: Seq<(Seq<char>, Seq<char>)>,
    pub calls: Seq<Seq<char>>,
    pub written: Seq<(Seq<char>, Seq<char>)>,
    pub log: Seq<Seq<char>>,
}

/// What a [`Fixture`] writes down when it is asked something.
pub open spec fn line(call: Call) -> Option<Seq<char>> {
    match call {
        Call::Report { level, source, text } => None,
        Call::RemoveContents(path) => Some("remove_contents "@ + path),
        Call::Selection(path) => Some("selection "@ + path),
        Call::WriteFile { path, content } => Some("write_file "@ + path),
        Call::SetSelections(data) => Some("set_selections "@ + data),
        Call::Subp(argv) => Some("subp "@ + join(argv, " "@)),
    }
}

/// Whether a call is scripted to fail.
pub open spec fn fails(s: Script, call: Call) -> Result<(), Seq<char>> {
    match line(call) {
        Some(text) => failure(s.errors, text),
        None => Ok(()),
    }
}

/// What a script answers.
pub open spec fn script_answer(s: Script, call: Call) -> Answer {
    match call {
        Call::Report { level, source, text } => Answer::Nothing,
        Call::RemoveContents(path) => Answer::Done(fails(s, call)),
        Call::Selection(path) => Answer::Selected(
            match fails(s, call) {
                Err(e) => Err(e),
                Ok(()) => Ok(lookup(s.files, path)),
            },
        ),
        Call::WriteFile { path, content } => Answer::Done(fails(s, call)),
        Call::SetSelections(data) => Answer::Done(fails(s, call)),
        Call::Subp(argv) => Answer::Done(fails(s, call)),
    }
}

/// The script after it was asked.
pub open spec fn script_after(s: Script, call: Call) -> Script {
    match call {
        Call::Report { level, source, text } => Script { log: s.log.push(log_line(level, source, text)), ..s },
        _ => {
            let calls = match line(call) {
                Some(text) => s.calls.push(text),
                None => s.calls,
            };
            match call {
                Call::WriteFile { path, content } => Script { calls, written: s.written.push((path, content)), ..s },
                _ => Script { calls, ..s },
            }
        },
    }
}

impl Fixture {
    /// The script as it is now.
    pub open spec fn script(&self) -> Script {
        Script {
            errors: text_table(self.errors@),
            files: text_table(self.files@),
            calls: texts(self.calls@),
            log: texts(self.log@),
            written: text_table(self.written@),
        }
    }

    fn record(&mut self, call: &str, Ghost(question): Ghost<Call>)
        requires
            line(question) == Some(call@),
        ensures
            final(self).script() == (Script { calls: old(self).script().calls.push(call@), ..old(self).script() }),
            final(self).trace@ == old(self).trace@.push(question),
    {
        broadcast use texts_push;
        self.calls.push(call.to_owned());
        proof {
            self.trace@ = self.trace@.push(question);
        }
    }

    fn note(&mut self, Ghost(question): Ghost<Call>)
        ensures
            final(self).script() == old(self).script(),
            final(self).trace@ == old(self).trace@.push(question),
    {
        proof {
            self.trace@ = self.trace@.push(question);
        }
    }
}

impl Default for Fixture {
    fn default() -> (r: Self)
        ensures
            r.script() == (Script {
                errors: Seq::empty(),
                files: Seq::empty(),
                calls: Seq::empty(),
                log: Seq::empty(),
                written: Seq::empty(),
            }),
            r.trace@ == Seq::<Call>::empty(),
    {
        let r = Fixture {
            errors: Vec::new(),
            files: Vec::new(),
            calls: Vec::new(),
            log: Vec::new(),
            written: Vec::new(),
            trace: Ghost(Seq::empty()),
        };
        proof {
            let w = r.script();
            assert(w.errors =~= Seq::empty());
            assert(w.files =~= Seq::empty());
            assert(w.calls =~= Seq::empty());
            assert(w.log =~= Seq::empty());
            assert(w.written =~= Seq::empty());
        }
        r
    }
}

impl Host for Fixture {
    type World = Script;

    open spec fn machine(&self) -> Machine<Call, Script> {
        Machine { calls: self.trace@, world: self.script() }
    }

    open spec fn reply(world: Script, call: Call) -> (Script, Answer) {
        (script_after(world, call), script_answer(world, call))
    }

    fn remove_contents(&mut self, path: &str) -> (r: Result<(), String>) {
        let call = cat2("remove_contents ", path);
        self.record(call.as_str(), Ghost(Call::RemoveContents(path@)));
        fail_as_scripted(&self.errors, call.as_str())
    }

    fn selection(&mut self, path: &str) -> (r: Result<Option<String>, String>) {
        let call = cat2("selection ", path);
        self.record(call.as_str(), Ghost(Call::Selection(path@)));
        match fail_as_scripted(&self.errors, call.as_str()) {
            Err(e) => Err(e),
            Ok(()) => Ok(lookup_text(&self.files, path)),
        }
    }

    fn write_file(&mut self, path: &str, content: &str) -> (r: Result<(), String>) {
        let call = cat2("write_file ", path);
        self.record(call.as_str(), Ghost(Call::WriteFile { path: path@, content: content@ }));
        let ghost before = self.script().written;
        self.written.push((path.to_owned(), content.to_owned()));
        assert(self.script().written =~= before.push((path@, content@)));
        fail_as_scripted(&self.errors, call.as_str())
    }

    fn set_selections(&mut self, data: &str) -> (r: Result<(), String>) {
        let call = cat2("set_selections ", data);
        self.record(call.as_str(), Ghost(Call::SetSelections(data@)));
        fail_as_scripted(&self.errors, call.as_str())
    }

    fn subp(&mut self, argv: &Vec<String>) -> (r: Result<(), String>) {
        let call = cat2("subp ", join_with(argv, " ").as_str());
        self.record(call.as_str(), Ghost(Call::Subp(texts(argv@))));
        fail_as_scripted(&self.errors, call.as_str())
    }

    fn report(&mut self, level: Level, source: &str, text: &str) {
        broadcast use texts_push;
        self.log.push(log_line_of(level, source, text));
        proof {
            self.trace@ = self.trace@.push(Call::Report { level, source: source@, text: text@ });
        }
    }
}

}
