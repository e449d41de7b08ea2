//! What growing the root file system asks of the machine.

use vstd::prelude::*;

use crate::cc::growpart::{
    answer_command, command_table, int_list, lookup_command, output, scripted_output, CommandResult, Failed, ProcError,
    Scripted,
};
use crate::cc::{list_table, lookup_list};
use crate::machine::{answers, asked, log_line, log_line_of, lookup, Level, Machine};
use crate::text::{cat2, has_text, join, join_with, opt_text, same, texts, texts_push};

verus! {

/// A file system that is mounted.
#[derive(Debug, Clone, Default, PartialEq, Eq)]
pub struct Mount {
    pub devpth: String,
    pub fs_type: String,
    pub mount_point: String,
    pub opts: String,
}

pub struct MountSpec {
    pub devpth: Seq<char>,
    pub fs_type: Seq<char>,
    pub mount_point: Seq<char>,
    pub opts: Seq<char>,
}

impl View for Mount {
    type V = MountSpec;

    open spec fn view(&self) -> MountSpec {
        MountSpec {
            devpth: self.devpth@,
            fs_type: self.fs_type@,
            mount_point: self.mount_point@,
            opts: self.opts@,
        }
    }
}

/// Why the mode of a path is not known.
#[derive(Debug, Clone, PartialEq, Eq)]
pub enum StatError {
    NotFound,
    Other(String),
}

pub enum StatFailure {
    NotFound,
    Other(Seq<char>),
}

impl View for StatError {
    type V = StatFailure;

    open spec fn view(&self) -> StatFailure {
        match self {
            StatError::NotFound => StatFailure::NotFound,
            StatError::Other(e) => StatFailure::Other(e@),
        }
    }
}

pub open spec fn mode_result(r: Result<u32, StatError>) -> Result<u32, StatFailure> {
    match r {
        Ok(n) => Ok(n),
        Err(e) => Err(e@),
    }
}

pub open spec fn mounted(r: Option<Mount>) -> Option<MountSpec> {
    match r {
        Some(m) => Some(m@),
        None => None,
    }
}

/// A question to the machine.
pub enum Call {
    Subp(Seq<Seq<char>>),
    Exists(Seq<char>),
    IsDir(Seq<char>),
    StatMode(Seq<char>),
    MountInfo(Seq<char>),
    MountOpts(Seq<char>),
    IsContainer,
    CmdLine,
    FindDevs(Seq<char>),
    Fork(Seq<Seq<char>>),
    Report { level: Level, source: Seq<char>, text: Seq<char> },
}

/// The machine's answer to a question.
pub enum Answer {
    Nothing,
    Output(Result<(Seq<char>, Seq<char>), Failed>),
    Flag(bool),
    Mode(Result<u32, StatFailure>),
    Mounted(Option<MountSpec>),
    Found(Option<Seq<char>>),
    Text(Seq<char>),
    Names(Seq<Seq<char>>),
}

/// Everything that growing the root file system asks of the machine.
///
/// A machine is a state and a rule: [`Host::reply`] gives, for a state and a
/// call, the next state and the answer.
pub trait Host: Sized {
    type World;

    spec fn machine(&self) -> Machine<Call, Self::World>;

    spec fn reply(world: Self::World, call: Call) -> (Self::World, Answer);

    /// Runs a command; what it printed on either output.
    fn subp(&mut self, argv: &Vec<String>) -> (r: Result<(String, String), ProcError>)
        ensures
            answers(
                old(self).machine(),
                Call::Subp(texts(argv@)),
                Self::reply(old(self).machine().world, Call::Subp(texts(argv@))),
                final(self).machine(),
                Answer::Output(output(r)),
            ),
    ;

    /// Whether a path exists.
    fn path_exists(&mut self, path: &str) -> (r: bool)
        ensures
            answers(
                old(self).machine(),
                Call::Exists(path@),
                Self::reply(old(self).machine().world, Call::Exists(path@)),
                final(self).machine(),
                Answer::Flag(r),
            ),
    ;

    /// Whether a path is a directory.
    fn is_dir(&mut self, path: &str) -> (r: bool)
        ensures
            answers(
                old(self).machine(),
                Call::IsDir(path@),
                Self::reply(old(self).machine().world, Call::IsDir(path@)),
                final(self).machine(),
                Answer::Flag(r),
            ),
    ;

    /// The mode of what is at a path.
    fn stat_mode(&mut self, path: &str) -> (r: Result<u32, StatError>)
        ensures
            answers(
                old(self).machine(),
                Call::StatMode(path@),
                Self::reply(old(self).machine().world, Call::StatMode(path@)),
                final(self).machine(),
                Answer::Mode(mode_result(r)),
            ),
    ;

    /// What is mounted at a path.
    fn mount_info(&mut self, path: &str) -> (r: Option<Mount>)
        ensures
            answers(
                old(self).machine(),
                Call::MountInfo(path@),
                Self::reply(old(self).machine().world, Call::MountInfo(path@)),
                final(self).machine(),
                Answer::Mounted(mounted(r)),
            ),
    ;

    /// The options of what is mounted at a path.
    fn mount_opts(&mut self, path: &str) -> (r: Option<String>)
        ensures
            answers(
                old(self).machine(),
                Call::MountOpts(path@),
                Self::reply(old(self).machine().world, Call::MountOpts(path@)),
                final(self).machine(),
                Answer::Found(opt_text(r)),
            ),
    ;

    /// Whether the machine is a container.
    fn is_container(&mut self) -> (r: bool)
        ensures
            answers(
                old(self).machine(),
                Call::IsContainer,
                Self::reply(old(self).machine().world, Call::IsContainer),
                final(self).machine(),
                Answer::Flag(r),
            ),
    ;

    /// The command line of the kernel.
    fn cmdline(&mut self) -> (r: String)
        ensures
            answers(
                old(self).machine(),
                Call::CmdLine,
                Self::reply(old(self).machine().world, Call::CmdLine),
                final(self).machine(),
                Answer::Text(r@),
            ),
    ;

    /// The devices that meet a criterion.
    fn find_devs_with(&mut self, criteria: &str) -> (r: Vec<String>)
        ensures
            answers(
                old(self).machine(),
                Call::FindDevs(criteria@),
                Self::reply(old(self).machine().world, Call::FindDevs(criteria@)),
                final(self).machine(),
                Answer::Names(texts(r@)),
            ),
    ;

    /// Runs a command on the side; what comes of it is not waited for.
    fn fork_resize(&mut self, argv: &Vec<String>)
        ensures
            answers(
                old(self).machine(),
                Call::Fork(texts(argv@)),
                Self::reply(old(self).machine().world, Call::Fork(texts(argv@))),
                final(self).machine(),
                Answer::Nothing,
            ),
    ;

    /// Writes a line to the log, under the name of what it comes from.
    fn report(&mut self, level: Level, source: &str, text: &str)
        ensures
            final(self).machine() == asked(
                old(self).machine(),
                Call::Report { level, source: source@, text: text@ },
                Self::reply(old(self).machine().world, Call::Report { level, source: source@, text: text@ }).0,
            ),
    ;
}

/// A machine that the module works on.
pub type Disk<H> = Machine<Call, <H as Host>::World>;

pub open spec fn ask_report<H: Host>(m: Disk<H>, level: Level, source: Seq<char>, text: Seq<char>) -> Disk<H> {
    let call = Call::Report { level, source, text };
    asked(m, call, H::reply(m.world, call).0)
}

/// A failure: a warning, and the same again with what helps to follow it.
pub open spec fn failure_told<H: Host>(m: Disk<H>, text: Seq<char>) -> Disk<H> {
    ask_report::<H>(ask_report::<H>(m, Level::Warning, "log_util.py"@, text), Level::Debug, "log_util.py"@, text)
}

pub fn log_failure<H: Host>(host: &mut H, text: &str)
    ensures
        final(host).machine() == failure_told::<H>(old(host).machine(), text@),
{
    host.report(Level::Warning, "log_util.py", text);
    host.report(Level::Debug, "log_util.py", text);
}

/// The name under which the module writes to the log.
pub const SOURCE: &'static str = "cc_resizefs.py";

/// A line that only helps to follow what happens.
pub open spec fn logged<H: Host>(m: Disk<H>, text: Seq<char>) -> Disk<H> {
    ask_report::<H>(m, Level::Debug, SOURCE@, text)
}

pub fn log_debug<H: Host>(host: &mut H, text: &str)
    ensures
        final(host).machine() == logged::<H>(old(host).machine(), text@),
{
    host.report(Level::Debug, SOURCE, text);
}

/// A line on what happens.
pub open spec fn informed<H: Host>(m: Disk<H>, text: Seq<char>) -> Disk<H> {
    ask_report::<H>(m, Level::Info, SOURCE@, text)
}

pub fn log_info<H: Host>(host: &mut H, text: &str)
    ensures
        final(host).machine() == informed::<H>(old(host).machine(), text@),
{
    host.report(Level::Info, SOURCE, text);
}

/// A warning.
pub open spec fn warned<H: Host>(m: Disk<H>, text: Seq<char>) -> Disk<H> {
    ask_report::<H>(m, Level::Warning, SOURCE@, text)
}

pub fn log_warn<H: Host>(host: &mut H, text: &str)
    ensures
        final(host).machine() == warned::<H>(old(host).machine(), text@),
{
    host.report(Level::Warning, SOURCE, text);
}

pub open spec fn ask_subp<H: Host>(m: Disk<H>, argv: Seq<Seq<char>>) -> (Disk<H>, Result<(Seq<char>, Seq<char>), Failed>) {
    let (w, a) = H::reply(m.world, Call::Subp(argv));
    (asked(m, Call::Subp(argv), w), a->Output_0)
}

pub open spec fn ask_path_exists<H: Host>(m: Disk<H>, path: Seq<char>) -> (Disk<H>, bool) {
    let (w, a) = H::reply(m.world, Call::Exists(path));
    (asked(m, Call::Exists(path), w), a->Flag_0)
}

pub open spec fn ask_is_dir<H: Host>(m: Disk<H>, path: Seq<char>) -> (Disk<H>, bool) {
    let (w, a) = H::reply(m.world, Call::IsDir(path));
    (asked(m, Call::IsDir(path), w), a->Flag_0)
}

pub open spec fn ask_stat_mode<H: Host>(m: Disk<H>, path: Seq<char>) -> (Disk<H>, Result<u32, StatFailure>) {
    let (w, a) = H::reply(m.world, Call::StatMode(path));
    (asked(m, Call::StatMode(path), w), a->Mode_0)
}

pub open spec fn ask_mount_info<H: Host>(m: Disk<H>, path: Seq<char>) -> (Disk<H>, Option<MountSpec>) {
    let (w, a) = H::reply(m.world, Call::MountInfo(path));
    (asked(m, Call::MountInfo(path), w), a->Mounted_0)
}

pub open spec fn ask_mount_opts<H: Host>(m: Disk<H>, path: Seq<char>) -> (Disk<H>, Option<Seq<char>>) {
    let (w, a) = H::reply(m.world, Call::MountOpts(path));
    (asked(m, Call::MountOpts(path), w), a->Found_0)
}

pub open spec fn ask_is_container<H: Host>(m: Disk<H>) -> (Disk<H>, bool) {
    let (w, a) = H::reply(m.world, Call::IsContainer);
    (asked(m, Call::IsContainer, w), a->Flag_0)
}

pub open spec fn ask_cmdline<H: Host>(m: Disk<H>) -> (Disk<H>, Seq<char>) {
    let (w, a) = H::reply(m.world, Call::CmdLine);
    (asked(m, Call::CmdLine, w), a->Text_0)
}

pub open spec fn ask_find_devs_with<H: Host>(m: Disk<H>, criteria: Seq<char>) -> (Disk<H>, Seq<Seq<char>>) {
    let (w, a) = H::reply(m.world, Call::FindDevs(criteria));
    (asked(m, Call::FindDevs(criteria), w), a->Names_0)
}

pub open spec fn ask_fork_resize<H: Host>(m: Disk<H>, argv: Seq<Seq<char>>) -> Disk<H> {
    asked(m, Call::Fork(argv), H::reply(m.world, Call::Fork(argv)).0)
}

// ---------------------------------------------------------------------------
// A scripted machine

/// A table from texts to modes.
pub open spec fn mode_table(t: Seq<(String, u32)>) -> Seq<(Seq<char>, u32)> {
    Seq::new(t.len(), |i: int| (t[i].0@, t[i].1))
}

/// A table from paths to what is mounted there.
pub open spec fn mount_table(t: Seq<(String, Mount)>) -> Seq<(Seq<char>, MountSpec)> {
    Seq::new(t.len(), |i: int| (t[i].0@, t[i].1@))
}

fn lookup_mode(table: &Vec<(String, u32)>, key: &str) -> (r: Option<u32>)
    ensures
        r == lookup(mode_table(table@), key@),
{
    let ghost all = mode_table(table@);
    let mut i: usize = 0;
    assert(all.skip(0) =~= all);
    while i < table.len()
        invariant
            i <= table@.len(),
            all == mode_table(table@),
            lookup(all.skip(i as int), key@) == lookup(all, key@),
        decreases table.len() - i,
    {
        assert(all.skip(i as int)[0] == all[i as int]);
        assert(all.skip(i as int).skip(1) =~= all.skip(i + 1));
        if same(table[i].0.as_str(), key) {
            return Some(table[i].1);
        }
        i += 1;
    }
    None
}

fn lookup_mount(table: &Vec<(String, Mount)>, key: &str) -> (r: Option<Mount>)
    ensures
        mounted(r) == lookup(mount_table(table@), key@),
{
    let ghost all = mount_table(table@);
    let mut i: usize = 0;
    assert(all.skip(0) =~= all);
    while i < table.len()
        invariant
            i <= table@.len(),
            all == mount_table(table@),
            lookup(all.skip(i as int), key@) == lookup(all, key@),
        decreases table.len() - i,
    {
        assert(all.skip(i as int)[0] == all[i as int]);
        assert(all.skip(i as int).skip(1) =~= all.skip(i + 1));
        if same(table[i].0.as_str(), key) {
            let m = &table[i].1;
            return Some(
                Mount {
                    devpth: m.devpth.clone(),
                    fs_type: m.fs_type.clone(),
                    mount_point: m.mount_point.clone(),
                    opts: m.opts.clone(),
                },
            );
        }
        i += 1;
    }
    None
}

/// A machine whose every answer is set up front, and which writes down what it
/// is asked.
pub struct Fixture {
    /// Commands by their words with spaces between them, and what they do.
    pub commands: Vec<(String, CommandResult)>,
    /// Paths that exist.
    pub paths: Vec<String>,
    /// Directories.
    pub dirs: Vec<String>,
    /// Modes of paths.
    pub stat: Vec<(String, u32)>,
    /// What is mounted at paths.
    pub mounts: Vec<(String, Mount)>,
    pub container: bool,
    pub cmdline: String,
    /// Devices that meet criteria.
    pub devs: Vec<(String, Vec<String>)>,
    /// What was asked, in order.
    pub calls: Vec<String>,
    /// The lines of the log, in order.
    pub log: Vec<String>,
    /// The questions themselves.
    pub trace: Ghost<Seq<Call>>,
}

/// The script of a [`Fixture`] and what it wrote down.
pub struct Script {
    pub commands: Seq<(Seq<char>, Scripted)>,
    pub paths: Seq<Seq<char>>,
    pub dirs: Seq<Seq<char>>,
    pub stat: Seq<(Seq<char>, u32)>,
    pub mounts: Seq<(Seq<char>, MountSpec)>,
    pub container: bool,
    pub cmdline: Seq<char>,
    pub devs: Seq<(Seq<char>, Seq<Seq<char>>)>,
    pub calls: Seq<Seq<char>>,
    pub log: Seq<Seq<char>>,
}

/// What a [`Fixture`] writes down when it is asked something.
pub open spec fn line(call: Call) -> Option<Seq<char>> {
    match call {
        Call::Report { level, source, text } => None,
        Call::Subp(argv) => Some("subp "@ + join(argv, " "@)),
        Call::Exists(path) => Some("exists "@ + path),
        Call::IsDir(path) => Some("isdir "@ + path),
        Call::StatMode(path) => Some("stat "@ + path),
        Call::MountInfo(path) => Some("mount_info "@ + path),
        Call::MountOpts(path) => Some("mount_opts "@ + path),
        Call::IsContainer => Some("is_container"@),
        Call::CmdLine => Some("cmdline"@),
        Call::FindDevs(criteria) => Some("find_devs_with "@ + criteria),
        Call::Fork(argv) => Some("fork "@ + join(argv, " "@)),
    }
}

/// What a script answers.
pub open spec fn script_answer(s: Script, call: Call) -> Answer {
    match call {
        Call::Report { level, source, text } => Answer::Nothing,
        Call::Subp(argv) => Answer::Output(
            scripted_output(argv, lookup(s.commands, join(argv, " "@)), seq![0int]),
        ),
        Call::Exists(path) => Answer::Flag(s.paths.contains(path)),
        Call::IsDir(path) => Answer::Flag(s.dirs.contains(path)),
        Call::StatMode(path) => Answer::Mode(
            match lookup(s.stat, path) {
                Some(mode) => Ok(mode),
                None => Err(StatFailure::NotFound),
            },
        ),
        Call::MountInfo(path) => Answer::Mounted(lookup(s.mounts, path)),
        Call::MountOpts(path) => Answer::Found(
            match lookup(s.mounts, path) {
                Some(m) => Some(m.opts),
                None => None,
            },
        ),
        Call::IsContainer => Answer::Flag(s.container),
        Call::CmdLine => Answer::Text(s.cmdline),
        Call::FindDevs(criteria) => Answer::Names(
            match lookup(s.devs, criteria) {
                Some(names) => names,
                None => Seq::empty(),
            },
        ),
        Call::Fork(argv) => Answer::Nothing,
    }
}

/// The script after it was asked.
pub open spec fn script_after(s: Script, call: Call) -> Script {
    match call {
        Call::Report { level, source, text } => Script { log: s.log.push(log_line(level, source, text)), ..s },
        _ => {
            let calls = match line(call) {
                Some(text) => s.calls.push(text),
                None => s.calls,
            };
            Script { calls, ..s }
        },
    }
}

impl Fixture {
    /// The script as it is now.
    pub open spec fn script(&self) -> Script {
        Script {
            commands: command_table(self.commands@),
            paths: texts(self.paths@),
            dirs: texts(self.dirs@),
            stat: mode_table(self.stat@),
            mounts: mount_table(self.mounts@),
            container: self.container,
            cmdline: self.cmdline@,
            devs: list_table(self.devs@),
            calls: texts(self.calls@),
            log: texts(self.log@),
        }
    }

    fn record(&mut self, call: &str, Ghost(question): Ghost<Call>)
        requires
            line(question) == Some(call@),
        ensures
            final(self).script() == (Script { calls: old(self).script().calls.push(call@), ..old(self).script() }),
            final(self).trace@ == old(self).trace@.push(question),
    {
        broadcast use texts_push;
        self.calls.push(call.to_owned());
        proof {
            self.trace@ = self.trace@.push(question);
        }
    }

    fn note(&mut self, Ghost(question): Ghost<Call>)
        ensures
            final(self).script() == old(self).script(),
            final(self).trace@ == old(self).trace@.push(question),
    {
        proof {
            self.trace@ = self.trace@.push(question);
        }
    }
}

impl Default for Fixture {
    fn default() -> (r: Self)
        ensures
            r.script() == (Script {
                commands: Seq::empty(),
                paths: Seq::empty(),
                dirs: Seq::empty(),
                stat: Seq::empty(),
                mounts: Seq::empty(),
                container: false,
                cmdline: Seq::empty(),
                devs: Seq::empty(),
                calls: Seq::empty(),
                log: Seq::empty(),
            }),
            r.trace@ == Seq::<Call>::empty(),
    {
        let r = Fixture {
            commands: Vec::new(),
            paths: Vec::new(),
            dirs: Vec::new(),
            stat: Vec::new(),
            mounts: Vec::new(),
            container: false,
            cmdline: String::new(),
            devs: Vec::new(),
            calls: Vec::new(),
            log: Vec::new(),
            trace: Ghost(Seq::empty()),
        };
        proof {
            let w = r.script();
            assert(w.commands =~= Seq::empty());
            assert(w.paths =~= Seq::empty());
            assert(w.dirs =~= Seq::empty());
            assert(w.stat =~= Seq::empty());
            assert(w.mounts =~= Seq::empty());
            assert(w.cmdline =~= Seq::empty());
            assert(w.devs =~= Seq::empty());
            assert(w.calls =~= Seq::empty());
            assert(w.log =~= Seq::empty());
        }
        r
    }
}

impl Host for Fixture {
    type World = Script;

    open spec fn machine(&self) -> Machine<Call, Script> {
        Machine { calls: self.trace@, world: self.script() }
    }

    open spec fn reply(world: Script, call: Call) -> (Script, Answer) {
        (script_after(world, call), script_answer(world, call))
    }

    fn subp(&mut self, argv: &Vec<String>) -> (r: Result<(String, String), ProcError>) {
        let key = join_with(argv, " ");
        self.record(cat2("subp ", key.as_str()).as_str(), Ghost(Call::Subp(texts(argv@))));
        let mut rcs: Vec<i32> = Vec::new();
        rcs.push(0);
        assert(int_list(rcs@) =~= seq![0int]);
        answer_command(argv, lookup_command(&self.commands, key.as_str()), &rcs)
    }

    fn path_exists(&mut self, path: &str) -> (r: bool) {
        self.record(cat2("exists ", path).as_str(), Ghost(Call::Exists(path@)));
        has_text(&self.paths, path)
    }

    fn is_dir(&mut self, path: &str) -> (r: bool) {
        self.record(cat2("isdir ", path).as_str(), Ghost(Call::IsDir(path@)));
        has_text(&self.dirs, path)
    }

    fn stat_mode(&mut self, path: &str) -> (r: Result<u32, StatError>) {
        self.record(cat2("stat ", path).as_str(), Ghost(Call::StatMode(path@)));
        match lookup_mode(&self.stat, path) {
            Some(mode) => Ok(mode),
            None => Err(StatError::NotFound),
        }
    }

    fn mount_info(&mut self, path: &str) -> (r: Option<Mount>) {
        self.record(cat2("mount_info ", path).as_str(), Ghost(Call::MountInfo(path@)));
        lookup_mount(&self.mounts, path)
    }

    fn mount_opts(&mut self, path: &str) -> (r: Option<String>) {
        self.record(cat2("mount_opts ", path).as_str(), Ghost(Call::MountOpts(path@)));
        match lookup_mount(&self.mounts, path) {
            Some(m) => Some(m.opts),
            None => None,
        }
    }

    fn is_container(&mut self) -> (r: bool) {
        self.record("is_container", Ghost(Call::IsContainer));
        self.container
    }

    fn cmdline(&mut self) -> (r: String) {
        self.record("cmdline", Ghost(Call::CmdLine));
        self.cmdline.clone()
    }

    fn find_devs_with(&mut self, criteria: &str) -> (r: Vec<String>) {
        self.record(cat2("find_devs_with ", criteria).as_str(), Ghost(Call::FindDevs(criteria@)));
        match lookup_list(&self.devs, criteria) {
            Some(names) => names,
            None => {
                let none: Vec<String> = Vec::new();
                assert(texts(none@) =~= Seq::empty());
                none
            },
        }
    }

    fn fork_resize(&mut self, argv: &Vec<String>) {
        self.record(cat2("fork ", join_with(argv, " ").as_str()).as_str(), Ghost(Call::Fork(texts(argv@))));
    }

    fn report(&mut self, level: Level, source: &str, text: &str) {
        broadcast use texts_push;
        self.log.push(log_line_of(level, source, text));
        proof {
            self.trace@ = self.trace@.push(Call::Report { level, source: source@, text: text@ });
        }
    }
}

}
