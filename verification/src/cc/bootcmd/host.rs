//! What running commands early in the boot asks of the machine.

use vstd::prelude::*;

use crate::cc::{fail_as_scripted, failure, text_result, unit_result};
use crate::machine::{answers, asked, log_line, log_line_of, text_table, Level, Machine};
use crate::number::{dec, dec_of, octal4, octal4_of};
use crate::text::{cat2, cat4, cat6, opt_text, texts, texts_push};

verus! {

/// An exit code, if there is one, or an error.
pub open spec fn exit_result(r: Result<Option<i32>, String>) -> Result<Option<i32>, Seq<char>> {
    match r {
        Ok(code) => Ok(code),
        Err(e) => Err(e@),
    }
}

/// A question to the machine.
pub enum Call {
    TempDir,
    WriteScript { path: Seq<char>, content: Seq<char>, mode: u32 },
    RunShell { script: Seq<char>, instance_id: Option<Seq<char>>, seconds: u64 },
    RemoveDir(Seq<char>),
    Report { level: Level, source: Seq<char>, text: Seq<char> },
}

/// The machine's answer to a question.
pub enum Answer {
    Nothing,
    Read(Result<Seq<char>, Seq<char>>),
    Done(Result<(), Seq<char>>),
    Exited(Result<Option<i32>, Seq<char>>),
}

/// Everything that running commands early in the boot asks of the machine.
///
/// A machine is a state and a rule: [`Host::reply`] gives, for a state and a
/// call, the next state and the answer.
pub trait Host: Sized {
    type World;

    spec fn machine(&self) -> Machine<Call, Self::World>;

    spec fn reply(world: Self::World, call: Call) -> (Self::World, Answer);

    /// Makes a directory of which nobody else knows.
    fn tempdir(&mut self) -> (r: Result<String, String>)
        ensures
            answers(
                old(self).machine(),
                Call::TempDir,
                Self::reply(old(self).machine().world, Call::TempDir),
                final(self).machine(),
                Answer::Read(text_result(r)),
            ),
    ;

    /// Writes a script.
    fn write_script(&mut self, path: &str, content: &str, mode: u32) -> (r: Result<(), String>)
        ensures
            answers(
                old(self).machine(),
                Call::WriteScript { path: path@, content: content@, mode },
                Self::reply(old(self).machine().world, Call::WriteScript { path: path@, content: content@, mode }),
                final(self).machine(),
                Answer::Done(unit_result(r)),
            ),
    ;

    /// Has the shell run a script for that many seconds at most, with the instance's name in a variable where there is
    /// one; the exit code, if there is one.
    fn run_shell(&mut self, script: &str, instance_id: &Option<String>, seconds: u64) -> (r: Result<Option<i32>, String>)
        ensures
            answers(
                old(self).machine(),
                Call::RunShell { script: script@, instance_id: opt_text(*instance_id), seconds },
                Self::reply(old(self).machine().world, Call::RunShell { script: script@, instance_id: opt_text(*instance_id), seconds }),
                final(self).machine(),
                Answer::Exited(exit_result(r)),
            ),
    ;

    /// Removes a directory with all that is in it.
    fn remove_dir(&mut self, path: &str)
        ensures
            answers(
                old(self).machine(),
                Call::RemoveDir(path@),
                Self::reply(old(self).machine().world, Call::RemoveDir(path@)),
                final(self).machine(),
                Answer::Nothing,
            ),
    ;

    /// Writes a line to the log, under the name of what it comes from.
    fn report(&mut self, level: Level, source: &str, text: &str)
        ensures
            final(self).machine() == asked(
                old(self).machine(),
                Call::Report { level, source: source@, text: text@ },
                Self::reply(old(self).machine().world, Call::Report { level, source: source@, text: text@ }).0,
            ),
    ;
}

/// A machine that the module works on.
pub type Shell<H> = Machine<Call, <H as Host>::World>;

pub open spec fn ask_report<H: Host>(m: Shell<H>, level: Level, source: Seq<char>, text: Seq<char>) -> Shell<H> {
    let call = Call::Report { level, source, text };
    asked(m, call, H::reply(m.world, call).0)
}

/// The name under which the module writes to the log.
pub const SOURCE: &'static str = "cc_bootcmd.py";

/// A line that only helps to follow what happens.
pub open spec fn logged<H: Host>(m: Shell<H>, text: Seq<char>) -> Shell<H> {
    ask_report::<H>(m, Level::Debug, SOURCE@, text)
}

pub fn log_debug<H: Host>(host: &mut H, text: &str)
    ensures
        final(host).machine() == logged::<H>(old(host).machine(), text@),
{
    host.report(Level::Debug, SOURCE, text);
}

/// A warning.
pub open spec fn warned<H: Host>(m: Shell<H>, text: Seq<char>) -> Shell<H> {
    ask_report::<H>(m, Level::Warning, SOURCE@, text)
}

pub fn log_warn<H: Host>(host: &mut H, text: &str)
    ensures
        final(host).machine() == warned::<H>(old(host).machine(), text@),
{
    host.report(Level::Warning, SOURCE, text);
}

pub open spec fn ask_tempdir<H: Host>(m: Shell<H>) -> (Shell<H>, Result<Seq<char>, Seq<char>>) {
    let (w, a) = H::reply(m.world, Call::TempDir);
    (asked(m, Call::TempDir, w), a->Read_0)
}

pub open spec fn ask_write_script<H: Host>(m: Shell<H>, path: Seq<char>, content: Seq<char>, mode: u32) -> (Shell<H>, Result<(), Seq<char>>) {
    let (w, a) = H::reply(m.world, Call::WriteScript { path, content, mode });
    (asked(m, Call::WriteScript { path, content, mode }, w), a->Done_0)
}

pub open spec fn ask_run_shell<H: Host>(m: Shell<H>, script: Seq<char>, instance_id: Option<Seq<char>>, seconds: u64) -> (Shell<H>, Result<Option<i32>, Seq<char>>) {
    let (w, a) = H::reply(m.world, Call::RunShell { script, instance_id, seconds });
    (asked(m, Call::RunShell { script, instance_id, seconds }, w), a->Exited_0)
}

pub open spec fn ask_remove_dir<H: Host>(m: Shell<H>, path: Seq<char>) -> Shell<H> {
    asked(m, Call::RemoveDir(path), H::reply(m.world, Call::RemoveDir(path)).0)
}

// ---------------------------------------------------------------------------
// A scripted machine

/// A text, or an empty one where there is none.
pub open spec fn or_empty(o: Option<Seq<char>>) -> Seq<char> {
    match o {
        Some(s) => s,
        None => ""@,
    }
}

/// A machine whose every answer is set up front, and which writes down what it
/// is asked.
pub struct Fixture {
    /// The directory of which nobody else knows.
    pub tmpdir: String,
    /// The exit code of the shell, if there is one.
    pub exit_code: Option<i32>,
    /// Calls that fail, by what is written down of them, and the message.
    pub errors: Vec<(String, String)>,
    /// What was asked, in order.
    pub calls: Vec<String>,
    /// Scripts that were written, in order.
    pub scripts: Vec<String>,
    /// The lines of the log, in order.
    pub log: Vec<String>,
    /// The questions themselves.
    pub trace: Ghost<Seq<Call>>,
}

/// The script of a [`Fixture`] and what it wrote down.
pub struct Script {
    pub tmpdir: Seq<char>,
    pub exit_code: Option<i32>,
    pub errors: Seq<(Seq<char>, Seq<char>)>,
    pub calls: Seq<Seq<char>>,
    pub scripts: Seq<Seq<char>>,
    pub log: Seq<Seq<char>>,
}

/// What a [`Fixture`] writes down when it is asked something.
pub open spec fn line(call: Call) -> Option<Seq<char>> {
    match call {
        Call::Report { level, source, text } => None,
        Call::TempDir => Some("tempdir"@),
        Call::WriteScript { path, content, mode } => Some("write_file "@ + path + " mode="@ + octal4(mode as nat)),
        Call::RunShell { script, instance_id, seconds } => Some("sh "@ + script + " "@ + or_empty(instance_id) + " timeout="@ + dec(seconds as nat)),
        Call::RemoveDir(path) => Some("remove_dir "@ + path),
    }
}

/// Whether a call is scripted to fail.
pub open spec fn fails(s: Script, call: Call) -> Result<(), Seq<char>> {
    match line(call) {
        Some(text) => failure(s.errors, text),
        None => Ok(()),
    }
}

/// What a script answers.
pub open spec fn script_answer(s: Script, call: Call) -> Answer {
    match call {
        Call::Report { level, source, text } => Answer::Nothing,
        Call::TempDir => Answer::Read(
            match fails(s, call) {
                Ok(()) => Ok(s.tmpdir),
                Err(e) => Err(e),
            },
        ),
        Call::WriteScript { path, content, mode } => Answer::Done(fails(s, call)),
        Call::RunShell { script, instance_id, seconds } => Answer::Exited(
            match fails(s, call) {
                Ok(()) => Ok(s.exit_code),
                Err(e) => Err(e),
            },
        ),
        Call::RemoveDir(path) => Answer::Nothing,
    }
}

/// The script after it was asked.
pub open spec fn script_after(s: Script, call: Call) -> Script {
    match call {
        Call::Report { level, source, text } => Script { log: s.log.push(log_line(level, source, text)), ..s },
        _ => {
            let calls = match line(call) {
                Some(text) => s.calls.push(text),
                None => s.calls,
            };
            match call {
                Call::WriteScript { path, content, mode } => Script { calls, scripts: s.scripts.push(content), ..s },
                _ => Script { calls, ..s },
            }
        },
    }
}

impl Fixture {
    /// The script as it is now.
    pub open spec fn script(&self) -> Script {
        Script {
            tmpdir: self.tmpdir@,
            exit_code: self.exit_code,
            errors: text_table(self.errors@),
            calls: texts(self.calls@),
            log: texts(self.log@),
            scripts: texts(self.scripts@),
        }
    }

    fn record(&mut self, call: &str, Ghost(question): Ghost<Call>)
        requires
            line(question) == Some(call@),
        ensures
            final(self).script() == (Script { calls: old(self).script().calls.push(call@), ..old(self).script() }),
            final(self).trace@ == old(self).trace@.push(question),
    {
        broadcast use texts_push;
        self.calls.push(call.to_owned());
        proof {
            self.trace@ = self.trace@.push(question);
        }
    }

    fn note(&mut self, Ghost(question): Ghost<Call>)
        ensures
            final(self).script() == old(self).script(),
            final(self).trace@ == old(self).trace@.push(question),
    {
        proof {
            self.trace@ = self.trace@.push(question);
        }
    }
}

impl Default for Fixture {
    fn default() -> (r: Self)
        ensures
            r.script() == (Script {
                tmpdir: Seq::empty(),
                exit_code: None,
                errors: Seq::empty(),
                calls: Seq::empty(),
                log: Seq::empty(),
                scripts: Seq::empty(),
            }),
            r.trace@ == Seq::<Call>::empty(),
    {
        let r = Fixture {
            tmpdir: String::new(),
            exit_code: None,
            errors: Vec::new(),
            calls: Vec::new(),
            log: Vec::new(),
            scripts: Vec::new(),
            trace: Ghost(Seq::empty()),
        };
        proof {
            let w = r.script();
            assert(w.tmpdir =~= Seq::empty());
            assert(w.errors =~= Seq::empty());
            assert(w.calls =~= Seq::empty());
            assert(w.log =~= Seq::empty());
            assert(w.scripts =~= Seq::empty());
        }
        r
    }
}

impl Host for Fixture {
    type World = Script;

    open spec fn machine(&self) -> Machine<Call, Script> {
        Machine { calls: self.trace@, world: self.script() }
    }

    open spec fn reply(world: Script, call: Call) -> (Script, Answer) {
        (script_after(world, call), script_answer(world, call))
    }

    fn tempdir(&mut self) -> (r: Result<String, String>) {
        self.record("tempdir", Ghost(Call::TempDir));
        match fail_as_scripted(&self.errors, "tempdir") {
            Ok(()) => Ok(self.tmpdir.clone()),
            Err(e) => Err(e),
        }
    }

    fn write_script(&mut self, path: &str, content: &str, mode: u32) -> (r: Result<(), String>) {
        broadcast use texts_push;
        let call = cat4("write_file ", path, " mode=", octal4_of(mode).as_str());
        self.record(call.as_str(), Ghost(Call::WriteScript { path: path@, content: content@, mode }));
        self.scripts.push(content.to_owned());
        fail_as_scripted(&self.errors, call.as_str())
    }

    fn run_shell(&mut self, script: &str, instance_id: &Option<String>, seconds: u64) -> (r: Result<Option<i32>, String>) {
        let id = match instance_id {
            Some(id) => id.clone(),
            None => "".to_owned(),
        };
        let call = cat6("sh ", script, " ", id.as_str(), " timeout=", dec_of(seconds as u128).as_str());
        self.record(call.as_str(), Ghost(Call::RunShell { script: script@, instance_id: opt_text(*instance_id), seconds }));
        match fail_as_scripted(&self.errors, call.as_str()) {
            Ok(()) => Ok(self.exit_code),
            Err(e) => Err(e),
        }
    }

    fn remove_dir(&mut self, path: &str) {
        self.record(cat2("remove_dir ", path).as_str(), Ghost(Call::RemoveDir(path@)));
    }

    fn report(&mut self, level: Level, source: &str, text: &str) {
        broadcast use texts_push;
        self.log.push(log_line_of(level, source, text));
        proof {
            self.trace@ = self.trace@.push(Call::Report { level, source: source@, text: text@ });
        }
    }
}

}
