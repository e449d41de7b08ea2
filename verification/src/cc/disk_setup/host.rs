//! What disk setup asks of the machine.

use vstd::prelude::*;

use crate::cc::growpart::{
    answer_command, command_table, int_list, lookup_command, output, scripted_output, CommandResult, Failed, ProcError, Scripted,
};
use crate::json::{json_quoted, json_string};
use crate::machine::{asked, log_line, log_line_of, lookup, lookup_text, text_table, Level, Machine};
use crate::number::{dec_int, dec_int_of};
use crate::text::{cat2, cat3, cat5, cat7, has_text, join, join_with, opt_text, same, texts, texts_push};

verus! {

/// A question to the machine.
pub enum Call {
    /// A command with its standard input, the variables added to its
    /// environment, and the exit codes that are no failure.
    Subp { argv: Seq<Seq<char>>, data: Option<Seq<char>>, env: Seq<(Seq<char>, Seq<char>)>, rcs: Seq<int> },
    /// A command line for the shell.
    Shell(Seq<char>),
    Which(Seq<char>),
    Exists(Seq<char>),
    IsBlock(Seq<char>),
    RealPath(Seq<char>),
    WipeEnds(Seq<char>),
    Share { bytes: int, sector: int, percent: Seq<char> },
    Report { level: Level, source: Seq<char>, text: Seq<char> },
}

/// The machine's answer to a question.
pub enum Answer {
    Output(Result<(Seq<char>, Seq<char>), Failed>),
    Flag(bool),
    Text(Seq<char>),
    MaybeText(Option<Seq<char>>),
    Done(Result<(), Seq<char>>),
    MaybeNumber(Option<int>),
    Nothing,
}

pub open spec fn done(r: Result<(), String>) -> Result<(), Seq<char>> {
    match r {
        Ok(()) => Ok(()),
        Err(e) => Err(e@),
    }
}

/// Everything disk setup asks of the machine.
///
/// A machine is a state and a rule: [`Host::reply`] gives, for a state and a
/// call, the next state and the answer.
pub trait Host: Sized {
    type World;

    spec fn machine(&self) -> Machine<Call, Self::World>;

    spec fn reply(world: Self::World, call: Call) -> (Self::World, Answer);

    /// Runs a command.
    fn subp(
        &mut self,
        argv: &Vec<String>,
        data: Option<&str>,
        env: &Vec<(String, String)>,
        rcs: &Vec<i32>,
    ) -> (r: Result<(String, String), ProcError>)
        ensures
            ({
                let call = Call::Subp {
                    argv: texts(argv@),
                    data: match data {
                        Some(d) => Some(d@),
                        None => None,
                    },
                    env: text_table(env@),
                    rcs: int_list(rcs@),
                };
                let (w, a) = Self::reply(old(self).machine().world, call);
                final(self).machine() == asked(old(self).machine(), call, w) && a == Answer::Output(output(r))
            }),
    ;

    /// Runs a command line in the shell.
    fn subp_shell(&mut self, command: &str) -> (r: Result<(String, String), ProcError>)
        ensures
            ({
                let call = Call::Shell(command@);
                let (w, a) = Self::reply(old(self).machine().world, call);
                final(self).machine() == asked(old(self).machine(), call, w) && a == Answer::Output(output(r))
            }),
    ;

    /// The path of a program, where it is installed.
    fn which(&mut self, program: &str) -> (r: Option<String>)
        ensures
            ({
                let call = Call::Which(program@);
                let (w, a) = Self::reply(old(self).machine().world, call);
                final(self).machine() == asked(old(self).machine(), call, w) && a == Answer::MaybeText(opt_text(r))
            }),
    ;

    /// Whether a path exists.
    fn path_exists(&mut self, path: &str) -> (r: bool)
        ensures
            ({
                let call = Call::Exists(path@);
                let (w, a) = Self::reply(old(self).machine().world, call);
                final(self).machine() == asked(old(self).machine(), call, w) && a == Answer::Flag(r)
            }),
    ;

    /// Whether a path is a block device.
    fn is_block_device(&mut self, path: &str) -> (r: bool)
        ensures
            ({
                let call = Call::IsBlock(path@);
                let (w, a) = Self::reply(old(self).machine().world, call);
                final(self).machine() == asked(old(self).machine(), call, w) && a == Answer::Flag(r)
            }),
    ;

    /// A path with its symbolic links resolved.
    fn realpath(&mut self, path: &str) -> (r: String)
        ensures
            ({
                let call = Call::RealPath(path@);
                let (w, a) = Self::reply(old(self).machine().world, call);
                final(self).machine() == asked(old(self).machine(), call, w) && a == Answer::Text(r@)
            }),
    ;

    /// Zeroes the first and the last mebibyte of a device.
    fn wipe_ends(&mut self, device: &str) -> (r: Result<(), String>)
        ensures
            ({
                let call = Call::WipeEnds(device@);
                let (w, a) = Self::reply(old(self).machine().world, call);
                final(self).machine() == asked(old(self).machine(), call, w) && a == Answer::Done(done(r))
            }),
    ;

    /// How many whole sectors a percentage of a disk of so many bytes comes to,
    /// in floating-point arithmetic; nothing where the percentage is no number.
    fn share(&mut self, bytes: i64, sector: i64, percent: &str) -> (r: Option<i64>)
        ensures
            ({
                let call = Call::Share { bytes: bytes as int, sector: sector as int, percent: percent@ };
                let (w, a) = Self::reply(old(self).machine().world, call);
                final(self).machine() == asked(old(self).machine(), call, w) && a == Answer::MaybeNumber(
                    match r {
                        Some(n) => Some(n as int),
                        None => None,
                    },
                )
            }),
    ;

    /// Writes a line to the log, under the name of what it comes from.
    fn report(&mut self, level: Level, source: &str, text: &str)
        ensures
            final(self).machine() == asked(
                old(self).machine(),
                Call::Report { level, source: source@, text: text@ },
                Self::reply(old(self).machine().world, Call::Report { level, source: source@, text: text@ }).0,
            ),
    ;
}

pub open spec fn ask_report<H: Host>(m: Machine<Call, H::World>, level: Level, source: Seq<char>, text: Seq<char>) -> Machine<Call, H::World> {
    let call = Call::Report { level, source, text };
    asked(m, call, H::reply(m.world, call).0)
}

/// A failure: a warning, and the same again with what helps to follow it.
pub open spec fn failure_told<H: Host>(m: Machine<Call, H::World>, text: Seq<char>) -> Machine<Call, H::World> {
    ask_report::<H>(ask_report::<H>(m, Level::Warning, "log_util.py"@, text), Level::Debug, "log_util.py"@, text)
}

pub fn log_failure<H: Host>(host: &mut H, text: &str)
    ensures
        final(host).machine() == failure_told::<H>(old(host).machine(), text@),
{
    host.report(Level::Warning, "log_util.py", text);
    host.report(Level::Debug, "log_util.py", text);
}

/// The name under which the module writes to the log.
pub const SOURCE: &'static str = "cc_disk_setup.py";

/// A line that only helps to follow what happens.
pub open spec fn logged<H: Host>(m: Machine<Call, H::World>, text: Seq<char>) -> Machine<Call, H::World> {
    ask_report::<H>(m, Level::Debug, SOURCE@, text)
}

pub fn log_debug<H: Host>(host: &mut H, text: &str)
    ensures
        final(host).machine() == logged::<H>(old(host).machine(), text@),
{
    host.report(Level::Debug, SOURCE, text);
}

/// A line on what happens.
pub open spec fn informed<H: Host>(m: Machine<Call, H::World>, text: Seq<char>) -> Machine<Call, H::World> {
    ask_report::<H>(m, Level::Info, SOURCE@, text)
}

pub fn log_info<H: Host>(host: &mut H, text: &str)
    ensures
        final(host).machine() == informed::<H>(old(host).machine(), text@),
{
    host.report(Level::Info, SOURCE, text);
}

/// A warning.
pub open spec fn warned<H: Host>(m: Machine<Call, H::World>, text: Seq<char>) -> Machine<Call, H::World> {
    ask_report::<H>(m, Level::Warning, SOURCE@, text)
}

pub fn log_warn<H: Host>(host: &mut H, text: &str)
    ensures
        final(host).machine() == warned::<H>(old(host).machine(), text@),
{
    host.report(Level::Warning, SOURCE, text);
}

// ---------------------------------------------------------------------------
// A scripted machine

/// A machine whose every answer is set up front, and which writes down what it
/// is asked.
pub struct Fixture {
    /// By the command's words with spaces between them.
    pub commands: Vec<(String, CommandResult)>,
    /// By the whole command line.
    pub shell: Vec<(String, CommandResult)>,
    /// A program's name and the path it is found at.
    pub which: Vec<(String, String)>,
    pub exists: Vec<String>,
    pub block: Vec<String>,
    pub realpath: Vec<(String, String)>,
    /// Devices whose ends cannot be wiped, and the error.
    pub wipe: Vec<(String, String)>,
    /// By the bytes, the sector size and the percentage, with spaces between.
    pub shares: Vec<(String, i64)>,
    /// What was asked, in order.
    pub calls: Vec<String>,
    /// The lines of the log, in order.
    pub log: Vec<String>,
    /// The questions themselves.
    pub trace: Ghost<Seq<Call>>,
}

/// The script of a [`Fixture`] and what it wrote down.
pub struct Script {
    pub commands: Seq<(Seq<char>, Scripted)>,
    pub shell: Seq<(Seq<char>, Scripted)>,
    pub which: Seq<(Seq<char>, Seq<char>)>,
    pub exists: Seq<Seq<char>>,
    pub block: Seq<Seq<char>>,
    pub realpath: Seq<(Seq<char>, Seq<char>)>,
    pub wipe: Seq<(Seq<char>, Seq<char>)>,
    pub shares: Seq<(Seq<char>, int)>,
    pub calls: Seq<Seq<char>>,
    pub log: Seq<Seq<char>>,
}

/// An association list of numbers.
pub open spec fn number_table(t: Seq<(String, i64)>) -> Seq<(Seq<char>, int)> {
    Seq::new(t.len(), |i: int| (t[i].0@, t[i].1 as int))
}

/// `name=value` for each variable.
pub open spec fn env_texts(env: Seq<(Seq<char>, Seq<char>)>) -> Seq<Seq<char>> {
    Seq::new(env.len(), |i: int| env[i].0 + "="@ + env[i].1)
}

pub open spec fn code_texts(rcs: Seq<int>) -> Seq<Seq<char>> {
    Seq::new(rcs.len(), |i: int| dec_int(rcs[i]))
}

/// What a [`Fixture`] writes down when it is asked something.
pub open spec fn line(call: Call) -> Option<Seq<char>> {
    match call {
        Call::Report { level, source, text } => None,
        Call::Subp { argv, data, env, rcs } => Some(
            "subp "@ + join(argv, " "@) + " env="@ + join(env_texts(env), ","@) + " data="@ + (match data {
                Some(d) => json_quoted(d),
                None => "-"@,
            }) + " rcs="@ + join(code_texts(rcs), ","@),
        ),
        Call::Shell(command) => Some("shell "@ + command),
        Call::Which(program) => Some("which "@ + program),
        Call::Exists(path) => Some("exists "@ + path),
        Call::IsBlock(path) => Some("isblk "@ + path),
        Call::RealPath(path) => Some("realpath "@ + path),
        Call::WipeEnds(device) => Some("wipe "@ + device),
        Call::Share { bytes, sector, percent } => None,
    }
}

/// The key of a scripted share.
pub open spec fn share_key(bytes: int, sector: int, percent: Seq<char>) -> Seq<char> {
    dec_int(bytes) + " "@ + dec_int(sector) + " "@ + percent
}

/// What a script answers.
pub open spec fn script_answer(s: Script, call: Call) -> Answer {
    match call {
        Call::Report { level, source, text } => Answer::Nothing,
        Call::Subp { argv, data, env, rcs } => Answer::Output(
            scripted_output(argv, lookup(s.commands, join(argv, " "@)), rcs),
        ),
        Call::Shell(command) => Answer::Output(
            scripted_output(seq![command], lookup(s.shell, command), seq![0int]),
        ),
        Call::Which(program) => Answer::MaybeText(lookup(s.which, program)),
        Call::Exists(path) => Answer::Flag(s.exists.contains(path)),
        Call::IsBlock(path) => Answer::Flag(s.block.contains(path)),
        Call::RealPath(path) => Answer::Text(
            match lookup(s.realpath, path) {
                Some(p) => p,
                None => path,
            },
        ),
        Call::WipeEnds(device) => Answer::Done(
            match lookup(s.wipe, device) {
                Some(e) => Err(e),
                None => Ok(()),
            },
        ),
        Call::Share { bytes, sector, percent } => Answer::MaybeNumber(
            lookup(s.shares, share_key(bytes, sector, percent)),
        ),
    }
}

/// The script after it was asked: one more line is written down.
pub open spec fn noted(s: Script, call: Call) -> Script {
    match call {
        Call::Report { level, source, text } => Script { log: s.log.push(log_line(level, source, text)), ..s },
        _ => {
            match line(call) {
                Some(text) => Script { calls: s.calls.push(text), ..s },
                None => s,
            }
        },
    }
}

impl Default for Fixture {
    fn default() -> (r: Self)
        ensures
            r.machine() == (Machine {
                calls: Seq::<Call>::empty(),
                world: Script {
                    commands: Seq::empty(),
                    shell: Seq::empty(),
                    which: Seq::empty(),
                    exists: Seq::empty(),
                    block: Seq::empty(),
                    realpath: Seq::empty(),
                    wipe: Seq::empty(),
                    shares: Seq::empty(),
                    calls: Seq::empty(),
                    log: Seq::empty(),
                },
            }),
    {
        let r = Fixture {
            commands: Vec::new(),
            shell: Vec::new(),
            which: Vec::new(),
            exists: Vec::new(),
            block: Vec::new(),
            realpath: Vec::new(),
            wipe: Vec::new(),
            shares: Vec::new(),
            calls: Vec::new(),
            log: Vec::new(),
            trace: Ghost(Seq::empty()),
        };
        proof {
            let w = r.machine().world;
            assert(w.commands =~= Seq::empty());
            assert(w.shell =~= Seq::empty());
            assert(w.which =~= Seq::empty());
            assert(w.exists =~= Seq::empty());
            assert(w.block =~= Seq::empty());
            assert(w.realpath =~= Seq::empty());
            assert(w.wipe =~= Seq::empty());
            assert(w.shares =~= Seq::empty());
            assert(w.calls =~= Seq::empty());
            assert(w.log =~= Seq::empty());
        }
        r
    }
}

impl Fixture {
    fn record(&mut self, call: String, Ghost(question): Ghost<Call>)
        requires
            line(question) == Some(call@),
        ensures
            final(self).machine() == asked(
                old(self).machine(),
                question,
                noted(old(self).machine().world, question),
            ),
    {
        broadcast use texts_push;
        self.calls.push(call);
        proof {
            self.trace@ = self.trace@.push(question);
        }
    }
}

fn lookup_number(table: &Vec<(String, i64)>, key: &str) -> (r: Option<i64>)
    ensures
        (match r {
            Some(n) => Some(n as int),
            None => None,
        }) == lookup(number_table(table@), key@),
{
    let ghost t = number_table(table@);
    let mut i: usize = 0;
    assert(t.skip(0) =~= t);
    while i < table.len()
        invariant
            i <= table@.len(),
            t == number_table(table@),
            lookup(t.skip(i as int), key@) == lookup(t, key@),
        decreases table.len() - i,
    {
        if same(table[i].0.as_str(), key) {
            return Some(table[i].1);
        }
        assert(t.skip(i as int).skip(1) =~= t.skip(i + 1));
        i += 1;
    }
    None
}

fn env_lines(env: &Vec<(String, String)>) -> (r: Vec<String>)
    ensures
        texts(r@) == env_texts(text_table(env@)),
{
    broadcast use texts_push;
    let ghost want = env_texts(text_table(env@));
    let mut out: Vec<String> = Vec::new();
    let mut i: usize = 0;
    while i < env.len()
        invariant
            i <= env@.len(),
            want == env_texts(text_table(env@)),
            texts(out@) == want.take(i as int),
        decreases env.len() - i,
    {
        out.push(cat3(env[i].0.as_str(), "=", env[i].1.as_str()));
        i += 1;
        assert(want.take(i as int) =~= want.take(i - 1).push(want[i - 1]));
    }
    assert(want.take(i as int) =~= want);
    out
}

fn code_lines(rcs: &Vec<i32>) -> (r: Vec<String>)
    ensures
        texts(r@) == code_texts(int_list(rcs@)),
{
    broadcast use texts_push;
    let ghost want = code_texts(int_list(rcs@));
    let mut out: Vec<String> = Vec::new();
    let mut i: usize = 0;
    while i < rcs.len()
        invariant
            i <= rcs@.len(),
            want == code_texts(int_list(rcs@)),
            texts(out@) == want.take(i as int),
        decreases rcs.len() - i,
    {
        out.push(dec_int_of(rcs[i] as i128));
        i += 1;
        assert(want.take(i as int) =~= want.take(i - 1).push(want[i - 1]));
    }
    assert(want.take(i as int) =~= want);
    out
}

impl Host for Fixture {
    type World = Script;

    open spec fn machine(&self) -> Machine<Call, Script> {
        Machine {
            calls: self.trace@,
            world: Script {
                commands: command_table(self.commands@),
                shell: command_table(self.shell@),
                which: text_table(self.which@),
                exists: texts(self.exists@),
                block: texts(self.block@),
                realpath: text_table(self.realpath@),
                wipe: text_table(self.wipe@),
                shares: number_table(self.shares@),
                calls: texts(self.calls@),
                log: texts(self.log@),
            },
        }
    }

    open spec fn reply(world: Script, call: Call) -> (Script, Answer) {
        (noted(world, call), script_answer(world, call))
    }

    fn subp(
        &mut self,
        argv: &Vec<String>,
        data: Option<&str>,
        env: &Vec<(String, String)>,
        rcs: &Vec<i32>,
    ) -> (r: Result<(String, String), ProcError>) {
        let key = join_with(argv, " ");
        let input = match data {
            Some(d) => json_string(d),
            None => "-".to_owned(),
        };
        let variables = join_with(&env_lines(env), ",");
        let head = cat7(
            "subp ",
            key.as_str(),
            " env=",
            variables.as_str(),
            " data=",
            input.as_str(),
            " rcs=",
        );
        let text = cat2(head.as_str(), join_with(&code_lines(rcs), ",").as_str());
        self.record(
            text,
            Ghost(
                Call::Subp {
                    argv: texts(argv@),
                    data: match data {
                        Some(d) => Some(d@),
                        None => None,
                    },
                    env: text_table(env@),
                    rcs: int_list(rcs@),
                },
            ),
        );
        answer_command(argv, lookup_command(&self.commands, key.as_str()), rcs)
    }

    fn subp_shell(&mut self, command: &str) -> (r: Result<(String, String), ProcError>) {
        self.record(cat2("shell ", command), Ghost(Call::Shell(command@)));
        let mut argv: Vec<String> = Vec::new();
        argv.push(command.to_owned());
        let mut rcs: Vec<i32> = Vec::new();
        rcs.push(0);
        assert(texts(argv@) =~= seq![command@]);
        assert(int_list(rcs@) =~= seq![0int]);
        answer_command(&argv, lookup_command(&self.shell, command), &rcs)
    }

    fn which(&mut self, program: &str) -> (r: Option<String>) {
        self.record(cat2("which ", program), Ghost(Call::Which(program@)));
        lookup_text(&self.which, program)
    }

    fn path_exists(&mut self, path: &str) -> (r: bool) {
        self.record(cat2("exists ", path), Ghost(Call::Exists(path@)));
        has_text(&self.exists, path)
    }

    fn is_block_device(&mut self, path: &str) -> (r: bool) {
        self.record(cat2("isblk ", path), Ghost(Call::IsBlock(path@)));
        has_text(&self.block, path)
    }

    fn realpath(&mut self, path: &str) -> (r: String) {
        self.record(cat2("realpath ", path), Ghost(Call::RealPath(path@)));
        match lookup_text(&self.realpath, path) {
            Some(p) => p,
            None => path.to_owned(),
        }
    }

    fn wipe_ends(&mut self, device: &str) -> (r: Result<(), String>) {
        self.record(cat2("wipe ", device), Ghost(Call::WipeEnds(device@)));
        match lookup_text(&self.wipe, device) {
            Some(e) => Err(e),
            None => Ok(()),
        }
    }

    fn share(&mut self, bytes: i64, sector: i64, percent: &str) -> (r: Option<i64>) {
        let key = cat5(
            dec_int_of(bytes as i128).as_str(),
            " ",
            dec_int_of(sector as i128).as_str(),
            " ",
            percent,
        );
        proof {
            self.trace@ = self.trace@.push(
                Call::Share { bytes: bytes as int, sector: sector as int, percent: percent@ },
            );
        }
        lookup_number(&self.shares, key.as_str())
    }

    fn report(&mut self, level: Level, source: &str, text: &str) {
        broadcast use texts_push;
        self.log.push(log_line_of(level, source, text));
        proof {
            self.trace@ = self.trace@.push(Call::Report { level, source: source@, text: text@ });
        }
    }
}

}
