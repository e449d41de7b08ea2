//! What putting keys on the console asks of the machine.

use vstd::prelude::*;

use crate::cc::growpart::{list_text, py_list};
use crate::cc::{cmd_output, CmdError, CmdFailed};
use crate::machine::{answers, asked, log_line, log_line_of, lookup, Level, Machine};
use crate::text::{cat2, has_text, join, join_with, same, texts, texts_push};

verus! {

/// A question to the machine.
pub enum Call {
    Exists(Seq<char>),
    Subp(Seq<Seq<char>>),
    Console(Seq<char>),
    Report { level: Level, source: Seq<char>, text: Seq<char> },
}

/// The machine's answer to a question.
pub enum Answer {
    Nothing,
    Flag(bool),
    Output(Result<Seq<char>, CmdFailed>),
}

/// Everything that putting keys on the console asks of the machine.
///
/// A machine is a state and a rule: [`Host::reply`] gives, for a state and a
/// call, the next state and the answer.
pub trait Host: Sized {
    type World;

    spec fn machine(&self) -> Machine<Call, Self::World>;

    spec fn reply(world: Self::World, call: Call) -> (Self::World, Answer);

    /// Whether a path exists.
    fn path_exists(&mut self, path: &str) -> (r: bool)
        ensures
            answers(
                old(self).machine(),
                Call::Exists(path@),
                Self::reply(old(self).machine().world, Call::Exists(path@)),
                final(self).machine(),
                Answer::Flag(r),
            ),
    ;

    /// Runs a command; what it printed.
    fn subp(&mut self, argv: &Vec<String>) -> (r: Result<String, CmdError>)
        ensures
            answers(
                old(self).machine(),
                Call::Subp(texts(argv@)),
                Self::reply(old(self).machine().world, Call::Subp(texts(argv@))),
                final(self).machine(),
                Answer::Output(cmd_output(r)),
            ),
    ;

    /// Puts a text on the console.
    fn multi_log(&mut self, text: &str)
        ensures
            answers(
                old(self).machine(),
                Call::Console(text@),
                Self::reply(old(self).machine().world, Call::Console(text@)),
                final(self).machine(),
                Answer::Nothing,
            ),
    ;

    /// Writes a line to the log, under the name of what it comes from.
    fn report(&mut self, level: Level, source: &str, text: &str)
        ensures
            final(self).machine() == asked(
                old(self).machine(),
                Call::Report { level, source: source@, text: text@ },
                Self::reply(old(self).machine().world, Call::Report { level, source: source@, text: text@ }).0,
            ),
    ;
}

/// A machine that the module works on.
pub type Keys<H> = Machine<Call, <H as Host>::World>;

pub open spec fn ask_report<H: Host>(m: Keys<H>, level: Level, source: Seq<char>, text: Seq<char>) -> Keys<H> {
    let call = Call::Report { level, source, text };
    asked(m, call, H::reply(m.world, call).0)
}

/// The name under which the module writes to the log.
pub const SOURCE: &'static str = "cc_keys_to_console.py";

/// A line that only helps to follow what happens.
pub open spec fn logged<H: Host>(m: Keys<H>, text: Seq<char>) -> Keys<H> {
    ask_report::<H>(m, Level::Debug, SOURCE@, text)
}

pub fn log_debug<H: Host>(host: &mut H, text: &str)
    ensures
        final(host).machine() == logged::<H>(old(host).machine(), text@),
{
    host.report(Level::Debug, SOURCE, text);
}

/// A warning.
pub open spec fn warned<H: Host>(m: Keys<H>, text: Seq<char>) -> Keys<H> {
    ask_report::<H>(m, Level::Warning, SOURCE@, text)
}

pub fn log_warn<H: Host>(host: &mut H, text: &str)
    ensures
        final(host).machine() == warned::<H>(old(host).machine(), text@),
{
    host.report(Level::Warning, SOURCE, text);
}

pub open spec fn ask_path_exists<H: Host>(m: Keys<H>, path: Seq<char>) -> (Keys<H>, bool) {
    let (w, a) = H::reply(m.world, Call::Exists(path));
    (asked(m, Call::Exists(path), w), a->Flag_0)
}

pub open spec fn ask_subp<H: Host>(m: Keys<H>, argv: Seq<Seq<char>>) -> (Keys<H>, Result<Seq<char>, CmdFailed>) {
    let (w, a) = H::reply(m.world, Call::Subp(argv));
    (asked(m, Call::Subp(argv), w), a->Output_0)
}

pub open spec fn ask_multi_log<H: Host>(m: Keys<H>, text: Seq<char>) -> Keys<H> {
    asked(m, Call::Console(text), H::reply(m.world, Call::Console(text)).0)
}

// ---------------------------------------------------------------------------
// A scripted machine

/// What comes of commands, by their words.
pub open spec fn command_table(t: Seq<(String, Result<String, CmdError>)>) -> Seq<
    (Seq<char>, Result<Seq<char>, CmdFailed>),
> {
    Seq::new(t.len(), |i: int| (t[i].0@, cmd_output(t[i].1)))
}

/// That a command is not known.
pub open spec fn unknown_command(argv: Seq<Seq<char>>) -> CmdFailed {
    CmdFailed {
        command: list_text(argv),
        exit_code: Some(127),
        stdout: Seq::empty(),
        stderr: if argv.len() > 0 {
            argv[0] + ": not found"@
        } else {
            ": not found"@
        },
    }
}

fn lookup_output(table: &Vec<(String, Result<String, CmdError>)>, key: &str) -> (r: Option<Result<String, CmdError>>)
    ensures
        match r {
            Some(out) => lookup(command_table(table@), key@) == Some(cmd_output(out)),
            None => lookup(command_table(table@), key@) is None,
        },
{
    let ghost all = command_table(table@);
    let mut i: usize = 0;
    assert(all.skip(0) =~= all);
    while i < table.len()
        invariant
            i <= table@.len(),
            all == command_table(table@),
            lookup(all.skip(i as int), key@) == lookup(all, key@),
        decreases table.len() - i,
    {
        assert(all.skip(i as int)[0] == all[i as int]);
        assert(all.skip(i as int).skip(1) =~= all.skip(i + 1));
        if same(table[i].0.as_str(), key) {
            return Some(
                match &table[i].1 {
                    Ok(out) => Ok(out.clone()),
                    Err(e) => Err(
                        CmdError {
                            command: e.command.clone(),
                            exit_code: e.exit_code,
                            stdout: e.stdout.clone(),
                            stderr: e.stderr.clone(),
                        },
                    ),
                },
            );
        }
        i += 1;
    }
    None
}

/// A machine whose every answer is set up front, and which writes down what it
/// is asked.
pub struct Fixture {
    /// Paths that exist.
    pub present: Vec<String>,
    /// Commands by their words with spaces between them, and what comes of them.
    pub commands: Vec<(String, Result<String, CmdError>)>,
    /// What was asked, in order.
    pub calls: Vec<String>,
    /// What was put on the console, in order.
    pub console: Vec<String>,
    /// The lines of the log, in order.
    pub log: Vec<String>,
    /// The questions themselves.
    pub trace: Ghost<Seq<Call>>,
}

/// The script of a [`Fixture`] and what it wrote down.
pub struct Script {
    pub present: Seq<Seq<char>>,
    pub commands: Seq<(Seq<char>, Result<Seq<char>, CmdFailed>)>,
    pub calls: Seq<Seq<char>>,
    pub console: Seq<Seq<char>>,
    pub log: Seq<Seq<char>>,
}

/// What a [`Fixture`] writes down when it is asked something.
pub open spec fn line(call: Call) -> Option<Seq<char>> {
    match call {
        Call::Report { level, source, text } => None,
        Call::Exists(path) => Some("exists "@ + path),
        Call::Subp(argv) => Some("subp "@ + join(argv, " "@)),
        Call::Console(text) => Some("multi_log"@),
    }
}

/// What a script answers.
pub open spec fn script_answer(s: Script, call: Call) -> Answer {
    match call {
        Call::Report { level, source, text } => Answer::Nothing,
        Call::Exists(path) => Answer::Flag(s.present.contains(path)),
        Call::Subp(argv) => Answer::Output(
            match lookup(s.commands, join(argv, " "@)) {
                Some(out) => out,
                None => Err(unknown_command(argv)),
            },
        ),
        Call::Console(text) => Answer::Nothing,
    }
}

/// The script after it was asked.
pub open spec fn script_after(s: Script, call: Call) -> Script {
    match call {
        Call::Report { level, source, text } => Script { log: s.log.push(log_line(level, source, text)), ..s },
        _ => {
            let calls = match line(call) {
                Some(text) => s.calls.push(text),
                None => s.calls,
            };
            match call {
                Call::Console(text) => Script { calls, console: s.console.push(text), ..s },
                _ => Script { calls, ..s },
            }
        },
    }
}

impl Fixture {
    /// The script as it is now.
    pub open spec fn script(&self) -> Script {
        Script {
            present: texts(self.present@),
            commands: command_table(self.commands@),
            calls: texts(self.calls@),
            log: texts(self.log@),
            console: texts(self.console@),
        }
    }

    fn record(&mut self, call: &str, Ghost(question): Ghost<Call>)
        requires
            line(question) == Some(call@),
        ensures
            final(self).script() == (Script { calls: old(self).script().calls.push(call@), ..old(self).script() }),
            final(self).trace@ == old(self).trace@.push(question),
    {
        broadcast use texts_push;
        self.calls.push(call.to_owned());
        proof {
            self.trace@ = self.trace@.push(question);
        }
    }

    fn note(&mut self, Ghost(question): Ghost<Call>)
        ensures
            final(self).script() == old(self).script(),
            final(self).trace@ == old(self).trace@.push(question),
    {
        proof {
            self.trace@ = self.trace@.push(question);
        }
    }
}

impl Default for Fixture {
    fn default() -> (r: Self)
        ensures
            r.script() == (Script {
                present: Seq::empty(),
                commands: Seq::empty(),
                calls: Seq::empty(),
                log: Seq::empty(),
                console: Seq::empty(),
            }),
            r.trace@ == Seq::<Call>::empty(),
    {
        let r = Fixture {
            present: Vec::new(),
            commands: Vec::new(),
            calls: Vec::new(),
            log: Vec::new(),
            console: Vec::new(),
            trace: Ghost(Seq::empty()),
        };
        proof {
            let w = r.script();
            assert(w.present =~= Seq::empty());
            assert(w.commands =~= Seq::empty());
            assert(w.calls =~= Seq::empty());
            assert(w.log =~= Seq::empty());
            assert(w.console =~= Seq::empty());
        }
        r
    }
}

impl Host for Fixture {
    type World = Script;

    open spec fn machine(&self) -> Machine<Call, Script> {
        Machine { calls: self.trace@, world: self.script() }
    }

    open spec fn reply(world: Script, call: Call) -> (Script, Answer) {
        (script_after(world, call), script_answer(world, call))
    }

    fn path_exists(&mut self, path: &str) -> (r: bool) {
        let call = cat2("exists ", path);
        self.record(call.as_str(), Ghost(Call::Exists(path@)));
        has_text(&self.present, path)
    }

    fn subp(&mut self, argv: &Vec<String>) -> (r: Result<String, CmdError>) {
        let key = join_with(argv, " ");
        self.record(cat2("subp ", key.as_str()).as_str(), Ghost(Call::Subp(texts(argv@))));
        match lookup_output(&self.commands, key.as_str()) {
            Some(out) => out,
            None => {
                let none = String::new();
                assert(none@ =~= Seq::empty());
                let stderr = if argv.len() > 0 {
                    assert(texts(argv@)[0] == argv@[0]@);
                    cat2(argv[0].as_str(), ": not found")
                } else {
                    ": not found".to_owned()
                };
                Err(CmdError { command: py_list(argv), exit_code: Some(127), stdout: none, stderr })
            },
        }
    }

    fn multi_log(&mut self, text: &str) {
        broadcast use texts_push;
        self.record("multi_log", Ghost(Call::Console(text@)));
        self.console.push(text.to_owned());
    }

    fn report(&mut self, level: Level, source: &str, text: &str) {
        broadcast use texts_push;
        self.log.push(log_line_of(level, source, text));
        proof {
            self.trace@ = self.trace@.push(Call::Report { level, source: source@, text: text@ });
        }
    }
}

}
