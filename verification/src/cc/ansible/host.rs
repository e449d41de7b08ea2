//! What setting up ansible asks of the machine.

use vstd::prelude::*;

use crate::cc::{
    cmd_output, fail_as_scripted, failure, output_as_scripted, scripted_output, unit_result, CmdError, CmdFailed,
};
use crate::machine::{answers, asked, log_line, log_line_of, text_table, Level, Machine};
use crate::show::{repr, repr_of};
use crate::text::{cat2, cat3, cat6, has_text, join, join_with, texts, texts_push};
use crate::value::{Node, Val};

verus! {

/// An optional text.
pub open spec fn opt_str(o: Option<&str>) -> Option<Seq<char>> {
    match o {
        Some(s) => Some(s@),
        None => None,
    }
}

/// A question to the machine.
pub enum Call {
    Subp { argv: Seq<Seq<char>>, env: Seq<(Seq<char>, Seq<char>)>, cwd: Option<Seq<char>> },
    DoAs { argv: Seq<Seq<char>>, user: Seq<char>, cwd: Option<Seq<char>> },
    Which(Seq<char>),
    Install(Val),
    HasPip,
    Managed,
    Print(Seq<char>),
    Report { level: Level, source: Seq<char>, text: Seq<char> },
}

/// The machine's answer to a question.
pub enum Answer {
    Nothing,
    Output(Result<Seq<char>, CmdFailed>),
    Flag(bool),
    Done(Result<(), Seq<char>>),
}

/// Everything that setting up ansible asks of the machine.
///
/// A machine is a state and a rule: [`Host::reply`] gives, for a state and a
/// call, the next state and the answer.
pub trait Host: Sized {
    type World;

    spec fn machine(&self) -> Machine<Call, Self::World>;

    spec fn reply(world: Self::World, call: Call) -> (Self::World, Answer);

    /// Runs a command with variables set, in a directory where one is given; what it printed.
    fn subp(&mut self, argv: &Vec<String>, env: &Vec<(String, String)>, cwd: Option<&str>) -> (r: Result<String, CmdError>)
        ensures
            answers(
                old(self).machine(),
                Call::Subp { argv: texts(argv@), env: text_table(env@), cwd: opt_str(cwd) },
                Self::reply(old(self).machine().world, Call::Subp { argv: texts(argv@), env: text_table(env@), cwd: opt_str(cwd) }),
                final(self).machine(),
                Answer::Output(cmd_output(r)),
            ),
    ;

    /// Runs a command as a user, in a directory where one is given; what it printed.
    fn do_as_user(&mut self, argv: &Vec<String>, user: &str, cwd: Option<&str>) -> (r: Result<String, CmdError>)
        ensures
            answers(
                old(self).machine(),
                Call::DoAs { argv: texts(argv@), user: user@, cwd: opt_str(cwd) },
                Self::reply(old(self).machine().world, Call::DoAs { argv: texts(argv@), user: user@, cwd: opt_str(cwd) }),
                final(self).machine(),
                Answer::Output(cmd_output(r)),
            ),
    ;

    /// Whether a program can be found.
    fn which(&mut self, program: &str) -> (r: bool)
        ensures
            answers(
                old(self).machine(),
                Call::Which(program@),
                Self::reply(old(self).machine().world, Call::Which(program@)),
                final(self).machine(),
                Answer::Flag(r),
            ),
    ;

    /// Installs packages.
    fn install_packages(&mut self, packages: &Node) -> (r: Result<(), String>)
        ensures
            answers(
                old(self).machine(),
                Call::Install(packages@),
                Self::reply(old(self).machine().world, Call::Install(packages@)),
                final(self).machine(),
                Answer::Done(unit_result(r)),
            ),
    ;

    /// Whether the interpreter has its package manager.
    fn has_pip(&mut self) -> (r: bool)
        ensures
            answers(
                old(self).machine(),
                Call::HasPip,
                Self::reply(old(self).machine().world, Call::HasPip),
                final(self).machine(),
                Answer::Flag(r),
            ),
    ;

    /// Whether the interpreter's packages are the system's to manage.
    fn externally_managed(&mut self) -> (r: bool)
        ensures
            answers(
                old(self).machine(),
                Call::Managed,
                Self::reply(old(self).machine().world, Call::Managed),
                final(self).machine(),
                Answer::Flag(r),
            ),
    ;

    /// Prints a text.
    fn stdout(&mut self, text: &str)
        ensures
            answers(
                old(self).machine(),
                Call::Print(text@),
                Self::reply(old(self).machine().world, Call::Print(text@)),
                final(self).machine(),
                Answer::Nothing,
            ),
    ;

    /// Writes a line to the log, under the name of what it comes from.
    fn report(&mut self, level: Level, source: &str, text: &str)
        ensures
            final(self).machine() == asked(
                old(self).machine(),
                Call::Report { level, source: source@, text: text@ },
                Self::reply(old(self).machine().world, Call::Report { level, source: source@, text: text@ }).0,
            ),
    ;
}

/// A machine that the module works on.
pub type Control<H> = Machine<Call, <H as Host>::World>;

pub open spec fn ask_report<H: Host>(m: Control<H>, level: Level, source: Seq<char>, text: Seq<char>) -> Control<H> {
    let call = Call::Report { level, source, text };
    asked(m, call, H::reply(m.world, call).0)
}

/// The name under which the module writes to the log.
pub const SOURCE: &'static str = "cc_ansible.py";

/// A line on what happens.
pub open spec fn informed<H: Host>(m: Control<H>, text: Seq<char>) -> Control<H> {
    ask_report::<H>(m, Level::Info, SOURCE@, text)
}

pub fn log_info<H: Host>(host: &mut H, text: &str)
    ensures
        final(host).machine() == informed::<H>(old(host).machine(), text@),
{
    host.report(Level::Info, SOURCE, text);
}

/// A warning.
pub open spec fn warned<H: Host>(m: Control<H>, text: Seq<char>) -> Control<H> {
    ask_report::<H>(m, Level::Warning, SOURCE@, text)
}

pub fn log_warn<H: Host>(host: &mut H, text: &str)
    ensures
        final(host).machine() == warned::<H>(old(host).machine(), text@),
{
    host.report(Level::Warning, SOURCE, text);
}

pub open spec fn ask_subp<H: Host>(m: Control<H>, argv: Seq<Seq<char>>, env: Seq<(Seq<char>, Seq<char>)>, cwd: Option<Seq<char>>) -> (Control<H>, Result<Seq<char>, CmdFailed>) {
    let (w, a) = H::reply(m.world, Call::Subp { argv, env, cwd });
    (asked(m, Call::Subp { argv, env, cwd }, w), a->Output_0)
}

pub open spec fn ask_do_as_user<H: Host>(m: Control<H>, argv: Seq<Seq<char>>, user: Seq<char>, cwd: Option<Seq<char>>) -> (Control<H>, Result<Seq<char>, CmdFailed>) {
    let (w, a) = H::reply(m.world, Call::DoAs { argv, user, cwd });
    (asked(m, Call::DoAs { argv, user, cwd }, w), a->Output_0)
}

pub open spec fn ask_which<H: Host>(m: Control<H>, program: Seq<char>) -> (Control<H>, bool) {
    let (w, a) = H::reply(m.world, Call::Which(program));
    (asked(m, Call::Which(program), w), a->Flag_0)
}

pub open spec fn ask_install_packages<H: Host>(m: Control<H>, packages: Val) -> (Control<H>, Result<(), Seq<char>>) {
    let (w, a) = H::reply(m.world, Call::Install(packages));
    (asked(m, Call::Install(packages), w), a->Done_0)
}

pub open spec fn ask_has_pip<H: Host>(m: Control<H>) -> (Control<H>, bool) {
    let (w, a) = H::reply(m.world, Call::HasPip);
    (asked(m, Call::HasPip, w), a->Flag_0)
}

pub open spec fn ask_externally_managed<H: Host>(m: Control<H>) -> (Control<H>, bool) {
    let (w, a) = H::reply(m.world, Call::Managed);
    (asked(m, Call::Managed, w), a->Flag_0)
}

pub open spec fn ask_stdout<H: Host>(m: Control<H>, text: Seq<char>) -> Control<H> {
    asked(m, Call::Print(text), H::reply(m.world, Call::Print(text)).0)
}

// ---------------------------------------------------------------------------
// A scripted machine

/// Variables with their values, as they are written down.
pub open spec fn env_texts(env: Seq<(Seq<char>, Seq<char>)>) -> Seq<Seq<char>> {
    Seq::new(env.len(), |i: int| env[i].0 + "="@ + env[i].1)
}

fn env_lines(env: &Vec<(String, String)>) -> (r: Vec<String>)
    ensures
        texts(r@) == env_texts(text_table(env@)),
{
    let ghost all = env_texts(text_table(env@));
    let mut out: Vec<String> = Vec::new();
    let mut i: usize = 0;
    assert(texts(out@) =~= all.take(0));
    while i < env.len()
        invariant
            i <= env@.len(),
            all == env_texts(text_table(env@)),
            texts(out@) == all.take(i as int),
        decreases env.len() - i,
    {
        let ghost before = texts(out@);
        out.push(cat3(env[i].0.as_str(), "=", env[i].1.as_str()));
        assert(texts(out@) =~= before.push(all[i as int]));
        i += 1;
        assert(all.take(i as int) =~= all.take(i - 1).push(all[i - 1]));
    }
    assert(all.take(i as int) =~= all);
    out
}

/// A text, or an empty one where there is none.
pub open spec fn or_empty(o: Option<Seq<char>>) -> Seq<char> {
    match o {
        Some(s) => s,
        None => ""@,
    }
}

fn or_empty_of<'a>(o: Option<&'a str>) -> (r: &'a str)
    ensures
        r@ == or_empty(opt_str(o)),
{
    match o {
        Some(s) => s,
        None => "",
    }
}

/// A machine whose every answer is set up front, and which writes down what it
/// is asked.
pub struct Fixture {
    /// Calls that fail, by what is written down of them, and the message.
    pub failures: Vec<(String, String)>,
    /// What commands print, by what is written down of them.
    pub stdout: Vec<(String, String)>,
    /// Programs that can be found.
    pub present: Vec<String>,
    /// Whether the interpreter has its package manager.
    pub pip: bool,
    /// Whether the interpreter's packages are the system's to manage.
    pub managed: bool,
    /// What was asked, in order.
    pub calls: Vec<String>,
    /// What was printed, in order.
    pub console: Vec<String>,
    /// The lines of the log, in order.
    pub log: Vec<String>,
    /// The questions themselves.
    pub trace: Ghost<Seq<Call>>,
}

/// The script of a [`Fixture`] and what it wrote down.
pub struct Script {
    pub failures: Seq<(Seq<char>, Seq<char>)>,
    pub stdout: Seq<(Seq<char>, Seq<char>)>,
    pub present: Seq<Seq<char>>,
    pub pip: bool,
    pub managed: bool,
    pub calls: Seq<Seq<char>>,
    pub console: Seq<Seq<char>>,
    pub log: Seq<Seq<char>>,
}

/// What a [`Fixture`] writes down when it is asked something.
pub open spec fn line(call: Call) -> Option<Seq<char>> {
    match call {
        Call::Report { level, source, text } => None,
        Call::Subp { argv, env, cwd } => Some(
            "subp "@ + join(argv, " "@) + " env=["@ + join(env_texts(env), ","@) + "] cwd="@ + or_empty(cwd),
        ),
        Call::DoAs { argv, user, cwd } => Some(
            "do_as "@ + user + " "@ + join(argv, " "@) + " cwd="@ + or_empty(cwd),
        ),
        Call::Which(program) => Some("which "@ + program),
        Call::Install(packages) => Some("install_packages "@ + repr(packages)),
        Call::HasPip => Some("import pip"@),
        Call::Managed => Some("externally_managed"@),
        Call::Print(text) => None,
    }
}

/// Whether a call is scripted to fail.
pub open spec fn fails(s: Script, call: Call) -> Result<(), Seq<char>> {
    match line(call) {
        Some(text) => failure(s.failures, text),
        None => Ok(()),
    }
}

/// What a script answers.
pub open spec fn script_answer(s: Script, call: Call) -> Answer {
    match call {
        Call::Report { level, source, text } => Answer::Nothing,
        Call::Subp { argv, env, cwd } => Answer::Output(scripted_output(s.failures, s.stdout, line(call)->0)),
        Call::DoAs { argv, user, cwd } => Answer::Output(scripted_output(s.failures, s.stdout, line(call)->0)),
        Call::Which(program) => Answer::Flag(s.present.contains(program)),
        Call::Install(packages) => Answer::Done(fails(s, call)),
        Call::HasPip => Answer::Flag(s.pip),
        Call::Managed => Answer::Flag(s.managed),
        Call::Print(text) => Answer::Nothing,
    }
}

/// The script after it was asked.
pub open spec fn script_after(s: Script, call: Call) -> Script {
    match call {
        Call::Report { level, source, text } => Script { log: s.log.push(log_line(level, source, text)), ..s },
        _ => {
            let calls = match line(call) {
                Some(text) => s.calls.push(text),
                None => s.calls,
            };
            match call {
                Call::Print(text) => Script { calls, console: s.console.push(text), ..s },
                _ => Script { calls, ..s },
            }
        },
    }
}

impl Fixture {
    /// The script as it is now.
    pub open spec fn script(&self) -> Script {
        Script {
            failures: text_table(self.failures@),
            stdout: text_table(self.stdout@),
            present: texts(self.present@),
            pip: self.pip,
            managed: self.managed,
            calls: texts(self.calls@),
            log: texts(self.log@),
            console: texts(self.console@),
        }
    }

    fn record(&mut self, call: &str, Ghost(question): Ghost<Call>)
        requires
            line(question) == Some(call@),
        ensures
            final(self).script() == (Script { calls: old(self).script().calls.push(call@), ..old(self).script() }),
            final(self).trace@ == old(self).trace@.push(question),
    {
        broadcast use texts_push;
        self.calls.push(call.to_owned());
        proof {
            self.trace@ = self.trace@.push(question);
        }
    }

    fn note(&mut self, Ghost(question): Ghost<Call>)
        ensures
            final(self).script() == old(self).script(),
            final(self).trace@ == old(self).trace@.push(question),
    {
        proof {
            self.trace@ = self.trace@.push(question);
        }
    }
}

impl Default for Fixture {
    fn default() -> (r: Self)
        ensures
            r.script() == (Script {
                failures: Seq::empty(),
                stdout: Seq::empty(),
                present: Seq::empty(),
                pip: false,
                managed: false,
                calls: Seq::empty(),
                log: Seq::empty(),
                console: Seq::empty(),
            }),
            r.trace@ == Seq::<Call>::empty(),
    {
        let r = Fixture {
            failures: Vec::new(),
            stdout: Vec::new(),
            present: Vec::new(),
            pip: false,
            managed: false,
            calls: Vec::new(),
            log: Vec::new(),
            console: Vec::new(),
            trace: Ghost(Seq::empty()),
        };
        proof {
            let w = r.script();
            assert(w.failures =~= Seq::empty());
            assert(w.stdout =~= Seq::empty());
            assert(w.present =~= Seq::empty());
            assert(w.calls =~= Seq::empty());
            assert(w.log =~= Seq::empty());
            assert(w.console =~= Seq::empty());
        }
        r
    }
}

impl Host for Fixture {
    type World = Script;

    open spec fn machine(&self) -> Machine<Call, Script> {
        Machine { calls: self.trace@, world: self.script() }
    }

    open spec fn reply(world: Script, call: Call) -> (Script, Answer) {
        (script_after(world, call), script_answer(world, call))
    }

    fn subp(&mut self, argv: &Vec<String>, env: &Vec<(String, String)>, cwd: Option<&str>) -> (r: Result<String, CmdError>) {
        let call = cat6(
            "subp ",
            join_with(argv, " ").as_str(),
            " env=[",
            join_with(&env_lines(env), ",").as_str(),
            "] cwd=",
            or_empty_of(cwd),
        );
        self.record(
            call.as_str(),
            Ghost(Call::Subp { argv: texts(argv@), env: text_table(env@), cwd: opt_str(cwd) }),
        );
        output_as_scripted(&self.failures, &self.stdout, call.as_str())
    }

    fn do_as_user(&mut self, argv: &Vec<String>, user: &str, cwd: Option<&str>) -> (r: Result<String, CmdError>) {
        let call = cat6("do_as ", user, " ", join_with(argv, " ").as_str(), " cwd=", or_empty_of(cwd));
        self.record(
            call.as_str(),
            Ghost(Call::DoAs { argv: texts(argv@), user: user@, cwd: opt_str(cwd) }),
        );
        output_as_scripted(&self.failures, &self.stdout, call.as_str())
    }

    fn which(&mut self, program: &str) -> (r: bool) {
        self.record(cat2("which ", program).as_str(), Ghost(Call::Which(program@)));
        has_text(&self.present, program)
    }

    fn install_packages(&mut self, packages: &Node) -> (r: Result<(), String>) {
        let call = cat2("install_packages ", repr_of(packages).as_str());
        self.record(call.as_str(), Ghost(Call::Install(packages@)));
        fail_as_scripted(&self.failures, call.as_str())
    }

    fn has_pip(&mut self) -> (r: bool) {
        self.record("import pip", Ghost(Call::HasPip));
        self.pip
    }

    fn externally_managed(&mut self) -> (r: bool) {
        self.record("externally_managed", Ghost(Call::Managed));
        self.managed
    }

    fn stdout(&mut self, text: &str) {
        let ghost before = self.script().console;
        self.note(Ghost(Call::Print(text@)));
        self.console.push(text.to_owned());
        assert(self.script().console =~= before.push(text@));
    }

    fn report(&mut self, level: Level, source: &str, text: &str) {
        broadcast use texts_push;
        self.log.push(log_line_of(level, source, text));
        proof {
            self.trace@ = self.trace@.push(Call::Report { level, source: source@, text: text@ });
        }
    }
}

}
