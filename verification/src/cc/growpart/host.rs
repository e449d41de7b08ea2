//! What growing partitions asks of the machine.

use vstd::prelude::*;

use crate::cc::growpart::{
    answer_command, command_table, int_list, lookup_command, output, scripted_output, CommandResult, Failed, Mounted,
    MountedAt, OpenError, OpenFailure, ProcError, Scripted,
};
use crate::machine::{answers, asked, log_line, log_line_of, lookup, lookup_text, text_table, Level, Machine};
use crate::number::{dec, dec_of};
use crate::text::{cat2, cat3, cat4, cat6, copy_strings, has_text, join, join_with, opt_text, same, texts, texts_push};

verus! {

/// A question to the machine.
pub enum Call {
    Subp { argv: Seq<Seq<char>>, env: Seq<(Seq<char>, Seq<char>)>, data: Option<Seq<u8>> },
    Which(Seq<char>),
    Exists(Seq<char>),
    IsFile(Seq<char>),
    RealPath(Seq<char>),
    StatMode(Seq<char>),
    SeekSize(Seq<char>),
    ReadText(Seq<char>),
    MountInfo(Seq<char>),
    IsContainer,
    CmdLine,
    FindDevs(Seq<char>),
    TmpExecPath,
    MkdTemp(Seq<char>),
    RmTree(Seq<char>),
    MkDir(Seq<char>),
    ReadKeydata,
    UnlinkKeydata,
    ManageService { action: Seq<char>, service: Seq<char> },
    Report { level: Level, source: Seq<char>, text: Seq<char> },
}

/// The machine's answer to a question.
pub enum Answer {
    Output(Result<(Seq<char>, Seq<char>), Failed>),
    Flag(bool),
    Text(Seq<char>),
    Texts(Seq<Seq<char>>),
    Mode(Result<u32, Seq<char>>),
    Size(Result<u64, OpenFailure>),
    Read(Result<Seq<char>, Seq<char>>),
    Mount(Option<MountedAt>),
    Done(Result<(), Seq<char>>),
    KeyData(Option<Result<Seq<char>, Seq<char>>>),
    Service(Result<(), Failed>),
    Nothing,
}

pub open spec fn opt_bytes(data: Option<&Vec<u8>>) -> Option<Seq<u8>> {
    match data {
        Some(d) => Some(d@),
        None => None,
    }
}

pub open spec fn mode_result(r: Result<u32, String>) -> Result<u32, Seq<char>> {
    match r {
        Ok(n) => Ok(n),
        Err(e) => Err(e@),
    }
}

pub open spec fn size_result(r: Result<u64, OpenError>) -> Result<u64, OpenFailure> {
    match r {
        Ok(n) => Ok(n),
        Err(e) => Err(e@),
    }
}

pub open spec fn text_result(r: Result<String, String>) -> Result<Seq<char>, Seq<char>> {
    match r {
        Ok(s) => Ok(s@),
        Err(e) => Err(e@),
    }
}

pub open spec fn unit_result(r: Result<(), String>) -> Result<(), Seq<char>> {
    match r {
        Ok(()) => Ok(()),
        Err(e) => Err(e@),
    }
}

pub open spec fn mounted(r: Option<Mounted>) -> Option<MountedAt> {
    match r {
        Some(m) => Some(m@),
        None => None,
    }
}

pub open spec fn key_result(r: Option<Result<String, String>>) -> Option<Result<Seq<char>, Seq<char>>> {
    match r {
        Some(k) => Some(text_result(k)),
        None => None,
    }
}

pub open spec fn service_result(r: Result<(), ProcError>) -> Result<(), Failed> {
    match r {
        Ok(()) => Ok(()),
        Err(e) => Err(e@),
    }
}

/// Everything that growing partitions asks of the machine.
///
/// A machine is a state and a rule: [`Host::reply`] gives, for a state and a
/// call, the next state and the answer.
pub trait Host: Sized {
    type World;

    spec fn machine(&self) -> Machine<Call, Self::World>;

    spec fn reply(world: Self::World, call: Call) -> (Self::World, Answer);

    /// Runs a command with variables added to its environment and standard input; only exit code zero is success.
    fn subp(&mut self, argv: &Vec<String>, env: &Vec<(String, String)>, data: Option<&Vec<u8>>) -> (r: Result<(String, String), ProcError>)
        ensures
            answers(
                old(self).machine(),
                Call::Subp { argv: texts(argv@), env: text_table(env@), data: opt_bytes(data) },
                Self::reply(old(self).machine().world, Call::Subp { argv: texts(argv@), env: text_table(env@), data: opt_bytes(data) }),
                final(self).machine(),
                Answer::Output(output(r)),
            ),
    ;

    /// Whether a program is installed.
    fn which(&mut self, program: &str) -> (r: bool)
        ensures
            answers(
                old(self).machine(),
                Call::Which(program@),
                Self::reply(old(self).machine().world, Call::Which(program@)),
                final(self).machine(),
                Answer::Flag(r),
            ),
    ;

    /// Whether a path exists.
    fn path_exists(&mut self, path: &str) -> (r: bool)
        ensures
            answers(
                old(self).machine(),
                Call::Exists(path@),
                Self::reply(old(self).machine().world, Call::Exists(path@)),
                final(self).machine(),
                Answer::Flag(r),
            ),
    ;

    /// Whether a path is a regular file.
    fn is_file(&mut self, path: &str) -> (r: bool)
        ensures
            answers(
                old(self).machine(),
                Call::IsFile(path@),
                Self::reply(old(self).machine().world, Call::IsFile(path@)),
                final(self).machine(),
                Answer::Flag(r),
            ),
    ;

    /// A path with its symbolic links resolved.
    fn realpath(&mut self, path: &str) -> (r: String)
        ensures
            answers(
                old(self).machine(),
                Call::RealPath(path@),
                Self::reply(old(self).machine().world, Call::RealPath(path@)),
                final(self).machine(),
                Answer::Text(r@),
            ),
    ;

    /// The mode of what is at a path.
    fn stat_mode(&mut self, path: &str) -> (r: Result<u32, String>)
        ensures
            answers(
                old(self).machine(),
                Call::StatMode(path@),
                Self::reply(old(self).machine().world, Call::StatMode(path@)),
                final(self).machine(),
                Answer::Mode(mode_result(r)),
            ),
    ;

    /// The size of a device, found by seeking to its end.
    fn seek_size(&mut self, path: &str) -> (r: Result<u64, OpenError>)
        ensures
            answers(
                old(self).machine(),
                Call::SeekSize(path@),
                Self::reply(old(self).machine().world, Call::SeekSize(path@)),
                final(self).machine(),
                Answer::Size(size_result(r)),
            ),
    ;

    /// The text of a file.
    fn read_text(&mut self, path: &str) -> (r: Result<String, String>)
        ensures
            answers(
                old(self).machine(),
                Call::ReadText(path@),
                Self::reply(old(self).machine().world, Call::ReadText(path@)),
                final(self).machine(),
                Answer::Read(text_result(r)),
            ),
    ;

    /// What is mounted at a path.
    fn mount_info(&mut self, path: &str) -> (r: Option<Mounted>)
        ensures
            answers(
                old(self).machine(),
                Call::MountInfo(path@),
                Self::reply(old(self).machine().world, Call::MountInfo(path@)),
                final(self).machine(),
                Answer::Mount(mounted(r)),
            ),
    ;

    /// Whether the machine is a container.
    fn is_container(&mut self) -> (r: bool)
        ensures
            answers(
                old(self).machine(),
                Call::IsContainer,
                Self::reply(old(self).machine().world, Call::IsContainer),
                final(self).machine(),
                Answer::Flag(r),
            ),
    ;

    /// The command line of the kernel.
    fn cmdline(&mut self) -> (r: String)
        ensures
            answers(
                old(self).machine(),
                Call::CmdLine,
                Self::reply(old(self).machine().world, Call::CmdLine),
                final(self).machine(),
                Answer::Text(r@),
            ),
    ;

    /// The devices that meet a criterion.
    fn find_devs_with(&mut self, criteria: &str) -> (r: Vec<String>)
        ensures
            answers(
                old(self).machine(),
                Call::FindDevs(criteria@),
                Self::reply(old(self).machine().world, Call::FindDevs(criteria@)),
                final(self).machine(),
                Answer::Texts(texts(r@)),
            ),
    ;

    /// The directory for temporary files that are run.
    fn tmp_exec_path(&mut self) -> (r: String)
        ensures
            answers(
                old(self).machine(),
                Call::TmpExecPath,
                Self::reply(old(self).machine().world, Call::TmpExecPath),
                final(self).machine(),
                Answer::Text(r@),
            ),
    ;

    /// Makes a new directory in another.
    fn mkdtemp(&mut self, dir: &str) -> (r: Result<String, String>)
        ensures
            answers(
                old(self).machine(),
                Call::MkdTemp(dir@),
                Self::reply(old(self).machine().world, Call::MkdTemp(dir@)),
                final(self).machine(),
                Answer::Read(text_result(r)),
            ),
    ;

    /// Removes a directory and what is in it.
    fn rmtree(&mut self, path: &str)
        ensures
            answers(
                old(self).machine(),
                Call::RmTree(path@),
                Self::reply(old(self).machine().world, Call::RmTree(path@)),
                final(self).machine(),
                Answer::Nothing,
            ),
    ;

    /// Makes a directory for the owner alone.
    fn mkdir(&mut self, path: &str) -> (r: Result<(), String>)
        ensures
            answers(
                old(self).machine(),
                Call::MkDir(path@),
                Self::reply(old(self).machine().world, Call::MkDir(path@)),
                final(self).machine(),
                Answer::Done(unit_result(r)),
            ),
    ;

    /// The key file of an encrypted volume, where there is one.
    fn read_keydata(&mut self) -> (r: Option<Result<String, String>>)
        ensures
            answers(
                old(self).machine(),
                Call::ReadKeydata,
                Self::reply(old(self).machine().world, Call::ReadKeydata),
                final(self).machine(),
                Answer::KeyData(key_result(r)),
            ),
    ;

    /// Removes the key file.
    fn unlink_keydata(&mut self) -> (r: Result<(), String>)
        ensures
            answers(
                old(self).machine(),
                Call::UnlinkKeydata,
                Self::reply(old(self).machine().world, Call::UnlinkKeydata),
                final(self).machine(),
                Answer::Done(unit_result(r)),
            ),
    ;

    /// Does something to a service.
    fn manage_service(&mut self, action: &str, service: &str) -> (r: Result<(), ProcError>)
        ensures
            answers(
                old(self).machine(),
                Call::ManageService { action: action@, service: service@ },
                Self::reply(old(self).machine().world, Call::ManageService { action: action@, service: service@ }),
                final(self).machine(),
                Answer::Service(service_result(r)),
            ),
    ;

    /// Writes a line to the log, under the name of what it comes from.
    fn report(&mut self, level: Level, source: &str, text: &str)
        ensures
            final(self).machine() == asked(
                old(self).machine(),
                Call::Report { level, source: source@, text: text@ },
                Self::reply(old(self).machine().world, Call::Report { level, source: source@, text: text@ }).0,
            ),
    ;
}

/// A machine that the module works on.
pub type Grown<H> = Machine<Call, <H as Host>::World>;

pub open spec fn ask_report<H: Host>(m: Grown<H>, level: Level, source: Seq<char>, text: Seq<char>) -> Grown<H> {
    let call = Call::Report { level, source, text };
    asked(m, call, H::reply(m.world, call).0)
}

/// A failure: a warning, and the same again with what helps to follow it.
pub open spec fn failure_told<H: Host>(m: Grown<H>, text: Seq<char>) -> Grown<H> {
    ask_report::<H>(ask_report::<H>(m, Level::Warning, "log_util.py"@, text), Level::Debug, "log_util.py"@, text)
}

pub fn log_failure<H: Host>(host: &mut H, text: &str)
    ensures
        final(host).machine() == failure_told::<H>(old(host).machine(), text@),
{
    host.report(Level::Warning, "log_util.py", text);
    host.report(Level::Debug, "log_util.py", text);
}

/// The name under which the module writes to the log.
pub const SOURCE: &'static str = "cc_growpart.py";

/// A line that only helps to follow what happens.
pub open spec fn logged<H: Host>(m: Grown<H>, text: Seq<char>) -> Grown<H> {
    ask_report::<H>(m, Level::Debug, SOURCE@, text)
}

pub fn log_debug<H: Host>(host: &mut H, text: &str)
    ensures
        final(host).machine() == logged::<H>(old(host).machine(), text@),
{
    host.report(Level::Debug, SOURCE, text);
}

/// A line on what happens.
pub open spec fn informed<H: Host>(m: Grown<H>, text: Seq<char>) -> Grown<H> {
    ask_report::<H>(m, Level::Info, SOURCE@, text)
}

pub fn log_info<H: Host>(host: &mut H, text: &str)
    ensures
        final(host).machine() == informed::<H>(old(host).machine(), text@),
{
    host.report(Level::Info, SOURCE, text);
}

/// A warning.
pub open spec fn warned<H: Host>(m: Grown<H>, text: Seq<char>) -> Grown<H> {
    ask_report::<H>(m, Level::Warning, SOURCE@, text)
}

pub fn log_warn<H: Host>(host: &mut H, text: &str)
    ensures
        final(host).machine() == warned::<H>(old(host).machine(), text@),
{
    host.report(Level::Warning, SOURCE, text);
}

pub open spec fn ask_subp<H: Host>(m: Grown<H>, argv: Seq<Seq<char>>, env: Seq<(Seq<char>, Seq<char>)>, data: Option<Seq<u8>>) -> (Grown<H>, Result<(Seq<char>, Seq<char>), Failed>) {
    let (w, a) = H::reply(m.world, Call::Subp { argv, env, data });
    (asked(m, Call::Subp { argv, env, data }, w), a->Output_0)
}

pub open spec fn ask_which<H: Host>(m: Grown<H>, program: Seq<char>) -> (Grown<H>, bool) {
    let (w, a) = H::reply(m.world, Call::Which(program));
    (asked(m, Call::Which(program), w), a->Flag_0)
}

pub open spec fn ask_path_exists<H: Host>(m: Grown<H>, path: Seq<char>) -> (Grown<H>, bool) {
    let (w, a) = H::reply(m.world, Call::Exists(path));
    (asked(m, Call::Exists(path), w), a->Flag_0)
}

pub open spec fn ask_is_file<H: Host>(m: Grown<H>, path: Seq<char>) -> (Grown<H>, bool) {
    let (w, a) = H::reply(m.world, Call::IsFile(path));
    (asked(m, Call::IsFile(path), w), a->Flag_0)
}

pub open spec fn ask_realpath<H: Host>(m: Grown<H>, path: Seq<char>) -> (Grown<H>, Seq<char>) {
    let (w, a) = H::reply(m.world, Call::RealPath(path));
    (asked(m, Call::RealPath(path), w), a->Text_0)
}

pub open spec fn ask_stat_mode<H: Host>(m: Grown<H>, path: Seq<char>) -> (Grown<H>, Result<u32, Seq<char>>) {
    let (w, a) = H::reply(m.world, Call::StatMode(path));
    (asked(m, Call::StatMode(path), w), a->Mode_0)
}

pub open spec fn ask_seek_size<H: Host>(m: Grown<H>, path: Seq<char>) -> (Grown<H>, Result<u64, OpenFailure>) {
    let (w, a) = H::reply(m.world, Call::SeekSize(path));
    (asked(m, Call::SeekSize(path), w), a->Size_0)
}

pub open spec fn ask_read_text<H: Host>(m: Grown<H>, path: Seq<char>) -> (Grown<H>, Result<Seq<char>, Seq<char>>) {
    let (w, a) = H::reply(m.world, Call::ReadText(path));
    (asked(m, Call::ReadText(path), w), a->Read_0)
}

pub open spec fn ask_mount_info<H: Host>(m: Grown<H>, path: Seq<char>) -> (Grown<H>, Option<MountedAt>) {
    let (w, a) = H::reply(m.world, Call::MountInfo(path));
    (asked(m, Call::MountInfo(path), w), a->Mount_0)
}

pub open spec fn ask_is_container<H: Host>(m: Grown<H>) -> (Grown<H>, bool) {
    let (w, a) = H::reply(m.world, Call::IsContainer);
    (asked(m, Call::IsContainer, w), a->Flag_0)
}

pub open spec fn ask_cmdline<H: Host>(m: Grown<H>) -> (Grown<H>, Seq<char>) {
    let (w, a) = H::reply(m.world, Call::CmdLine);
    (asked(m, Call::CmdLine, w), a->Text_0)
}

pub open spec fn ask_find_devs_with<H: Host>(m: Grown<H>, criteria: Seq<char>) -> (Grown<H>, Seq<Seq<char>>) {
    let (w, a) = H::reply(m.world, Call::FindDevs(criteria));
    (asked(m, Call::FindDevs(criteria), w), a->Texts_0)
}

pub open spec fn ask_tmp_exec_path<H: Host>(m: Grown<H>) -> (Grown<H>, Seq<char>) {
    let (w, a) = H::reply(m.world, Call::TmpExecPath);
    (asked(m, Call::TmpExecPath, w), a->Text_0)
}

pub open spec fn ask_mkdtemp<H: Host>(m: Grown<H>, dir: Seq<char>) -> (Grown<H>, Result<Seq<char>, Seq<char>>) {
    let (w, a) = H::reply(m.world, Call::MkdTemp(dir));
    (asked(m, Call::MkdTemp(dir), w), a->Read_0)
}

pub open spec fn ask_rmtree<H: Host>(m: Grown<H>, path: Seq<char>) -> Grown<H> {
    asked(m, Call::RmTree(path), H::reply(m.world, Call::RmTree(path)).0)
}

pub open spec fn ask_mkdir<H: Host>(m: Grown<H>, path: Seq<char>) -> (Grown<H>, Result<(), Seq<char>>) {
    let (w, a) = H::reply(m.world, Call::MkDir(path));
    (asked(m, Call::MkDir(path), w), a->Done_0)
}

pub open spec fn ask_read_keydata<H: Host>(m: Grown<H>) -> (Grown<H>, Option<Result<Seq<char>, Seq<char>>>) {
    let (w, a) = H::reply(m.world, Call::ReadKeydata);
    (asked(m, Call::ReadKeydata, w), a->KeyData_0)
}

pub open spec fn ask_unlink_keydata<H: Host>(m: Grown<H>) -> (Grown<H>, Result<(), Seq<char>>) {
    let (w, a) = H::reply(m.world, Call::UnlinkKeydata);
    (asked(m, Call::UnlinkKeydata, w), a->Done_0)
}

pub open spec fn ask_manage_service<H: Host>(m: Grown<H>, action: Seq<char>, service: Seq<char>) -> (Grown<H>, Result<(), Failed>) {
    let (w, a) = H::reply(m.world, Call::ManageService { action, service });
    (asked(m, Call::ManageService { action, service }, w), a->Service_0)
}

// ---------------------------------------------------------------------------
// A scripted machine

/// A machine whose every answer is set up front, and which writes down what it
/// is asked.
pub struct Fixture {
    /// By the command's words with spaces between them.
    pub commands: Vec<(String, CommandResult)>,
    pub which: Vec<String>,
    pub exists: Vec<String>,
    pub files: Vec<String>,
    pub realpath: Vec<(String, String)>,
    pub stat: Vec<(String, u32)>,
    /// One size for each time it is asked for; the last is given again and
    /// again. `None` is a device that is not there.
    pub sizes: Vec<(String, Vec<Option<u64>>)>,
    pub text: Vec<(String, String)>,
    pub mounts: Vec<(String, Mounted)>,
    pub container: bool,
    pub cmdline: String,
    pub devs: Vec<(String, Vec<String>)>,
    pub tmp_exec: String,
    pub tmpdir: String,
    pub keydata: Option<String>,
    /// What was asked, in order.
    pub calls: Vec<String>,
    /// The lines of the log, in order.
    pub log: Vec<String>,
    /// The questions themselves.
    pub trace: Ghost<Seq<Call>>,
}

/// The script of a [`Fixture`] and what it wrote down.
pub struct Script {
    pub commands: Seq<(Seq<char>, Scripted)>,
    pub which: Seq<Seq<char>>,
    pub exists: Seq<Seq<char>>,
    pub files: Seq<Seq<char>>,
    pub realpath: Seq<(Seq<char>, Seq<char>)>,
    pub stat: Seq<(Seq<char>, u32)>,
    pub sizes: Seq<(Seq<char>, Seq<Option<u64>>)>,
    pub text: Seq<(Seq<char>, Seq<char>)>,
    pub mounts: Seq<(Seq<char>, MountedAt)>,
    pub container: bool,
    pub cmdline: Seq<char>,
    pub devs: Seq<(Seq<char>, Seq<Seq<char>>)>,
    pub tmp_exec: Seq<char>,
    pub tmpdir: Seq<char>,
    pub keydata: Option<Seq<char>>,
    pub calls: Seq<Seq<char>>,
    pub log: Seq<Seq<char>>,
}

pub open spec fn stat_table(t: Seq<(String, u32)>) -> Seq<(Seq<char>, u32)> {
    Seq::new(t.len(), |i: int| (t[i].0@, t[i].1))
}

pub open spec fn size_table(t: Seq<(String, Vec<Option<u64>>)>) -> Seq<(Seq<char>, Seq<Option<u64>>)> {
    Seq::new(t.len(), |i: int| (t[i].0@, t[i].1@))
}

pub open spec fn mount_table(t: Seq<(String, Mounted)>) -> Seq<(Seq<char>, MountedAt)> {
    Seq::new(t.len(), |i: int| (t[i].0@, t[i].1@))
}

pub open spec fn dev_table(t: Seq<(String, Vec<String>)>) -> Seq<(Seq<char>, Seq<Seq<char>>)> {
    Seq::new(t.len(), |i: int| (t[i].0@, texts(t[i].1@)))
}

/// `name=value` for each variable.
pub open spec fn env_texts(env: Seq<(Seq<char>, Seq<char>)>) -> Seq<Seq<char>> {
    Seq::new(env.len(), |i: int| env[i].0 + "="@ + env[i].1)
}

/// What a [`Fixture`] writes down when it is asked something.
pub open spec fn line(call: Call) -> Seq<char> {
    match call {
        Call::Report { level, source, text } => Seq::empty(),
        Call::Subp { argv, env, data } => "subp "@ + join(argv, " "@) + " env="@ + join(env_texts(env), ","@)
            + " data="@ + (match data {
            Some(d) => dec(d.len()),
            None => "-1"@,
        }),
        Call::Which(program) => "which "@ + program,
        Call::Exists(path) => "exists "@ + path,
        Call::IsFile(path) => "isfile "@ + path,
        Call::RealPath(path) => "realpath "@ + path,
        Call::StatMode(path) => "stat "@ + path,
        Call::SeekSize(path) => "size "@ + path,
        Call::ReadText(path) => "read "@ + path,
        Call::MountInfo(path) => "mount_info "@ + path,
        Call::IsContainer => "is_container"@,
        Call::CmdLine => "cmdline"@,
        Call::FindDevs(criteria) => "find_devs_with "@ + criteria,
        Call::TmpExecPath => "tmp_exec_path"@,
        Call::MkdTemp(dir) => "mkdtemp "@ + dir,
        Call::RmTree(path) => "rmtree "@ + path,
        Call::MkDir(path) => "mkdir "@ + path,
        Call::ReadKeydata => "read_keydata"@,
        Call::UnlinkKeydata => "unlink_keydata"@,
        Call::ManageService { action, service } => "manage_service "@ + action + " "@ + service,
    }
}

/// The error on a path that is not scripted.
pub open spec fn no_such_file(path: Seq<char>) -> Seq<char> {
    "[Errno 2] No such file or directory: '"@ + path + "'"@
}

/// The size that is scripted next for a device.
pub open spec fn next_size(sizes: Seq<(Seq<char>, Seq<Option<u64>>)>, path: Seq<char>) -> Result<u64, OpenFailure> {
    match lookup(sizes, path) {
        Some(list) => if list.len() > 0 {
            match list[0] {
                Some(n) => Ok(n),
                None => Err(OpenFailure::NotFound),
            }
        } else {
            Err(OpenFailure::NotFound)
        },
        None => Err(OpenFailure::NotFound),
    }
}

/// The sizes after one was given out: a list of more than one loses its first.
pub open spec fn sizes_after(sizes: Seq<(Seq<char>, Seq<Option<u64>>)>, path: Seq<char>) -> Seq<
    (Seq<char>, Seq<Option<u64>>),
>
    decreases sizes.len(),
{
    if sizes.len() == 0 {
        sizes
    } else if sizes[0].0 == path {
        if sizes[0].1.len() > 1 {
            sizes.update(0, (path, sizes[0].1.skip(1)))
        } else {
            sizes
        }
    } else {
        seq![sizes[0]] + sizes_after(sizes.skip(1), path)
    }
}

/// What a script answers.
pub open spec fn script_answer(s: Script, call: Call) -> Answer {
    match call {
        Call::Report { level, source, text } => Answer::Nothing,
        Call::Subp { argv, env, data } => Answer::Output(
            scripted_output(argv, lookup(s.commands, join(argv, " "@)), seq![0int]),
        ),
        Call::Which(program) => Answer::Flag(s.which.contains(program)),
        Call::Exists(path) => Answer::Flag(s.exists.contains(path)),
        Call::IsFile(path) => Answer::Flag(s.files.contains(path)),
        Call::RealPath(path) => Answer::Text(
            match lookup(s.realpath, path) {
                Some(p) => p,
                None => path,
            },
        ),
        Call::StatMode(path) => Answer::Mode(
            match lookup(s.stat, path) {
                Some(mode) => Ok(mode),
                None => Err(no_such_file(path)),
            },
        ),
        Call::SeekSize(path) => Answer::Size(next_size(s.sizes, path)),
        Call::ReadText(path) => Answer::Read(
            match lookup(s.text, path) {
                Some(text) => Ok(text),
                None => Err(no_such_file(path)),
            },
        ),
        Call::MountInfo(path) => Answer::Mount(lookup(s.mounts, path)),
        Call::IsContainer => Answer::Flag(s.container),
        Call::CmdLine => Answer::Text(s.cmdline),
        Call::FindDevs(criteria) => Answer::Texts(
            match lookup(s.devs, criteria) {
                Some(list) => list,
                None => Seq::empty(),
            },
        ),
        Call::TmpExecPath => Answer::Text(s.tmp_exec),
        Call::MkdTemp(dir) => Answer::Read(Ok(s.tmpdir)),
        Call::RmTree(path) => Answer::Nothing,
        Call::MkDir(path) => Answer::Done(Ok(())),
        Call::ReadKeydata => Answer::KeyData(
            match s.keydata {
                Some(text) => Some(Ok(text)),
                None => None,
            },
        ),
        Call::UnlinkKeydata => Answer::Done(Ok(())),
        Call::ManageService { action, service } => Answer::Service(Ok(())),
    }
}

/// The script after it was asked: one more line is written down, a size is used
/// up, a key file that was removed is gone.
pub open spec fn script_after(s: Script, call: Call) -> Script {
    match call {
        Call::Report { level, source, text } => Script { log: s.log.push(log_line(level, source, text)), ..s },
        _ => {
            let calls = s.calls.push(line(call));
            match call {
                Call::SeekSize(path) => Script { calls, sizes: sizes_after(s.sizes, path), ..s },
                Call::UnlinkKeydata => Script { calls, keydata: None, ..s },
                _ => Script { calls, ..s },
            }
        },
    }
}

impl Fixture {
    /// The script as it is now.
    pub open spec fn script(&self) -> Script {
        Script {
            commands: command_table(self.commands@),
            which: texts(self.which@),
            exists: texts(self.exists@),
            files: texts(self.files@),
            realpath: text_table(self.realpath@),
            stat: stat_table(self.stat@),
            sizes: size_table(self.sizes@),
            text: text_table(self.text@),
            mounts: mount_table(self.mounts@),
            container: self.container,
            cmdline: self.cmdline@,
            devs: dev_table(self.devs@),
            tmp_exec: self.tmp_exec@,
            tmpdir: self.tmpdir@,
            keydata: opt_text(self.keydata),
            calls: texts(self.calls@),
            log: texts(self.log@),
        }
    }

    fn record(&mut self, call: String, Ghost(question): Ghost<Call>)
        requires
            line(question) == call@,
        ensures
            final(self).script() == (Script { calls: old(self).script().calls.push(call@), ..old(self).script() }),
            final(self).trace@ == old(self).trace@.push(question),
    {
        broadcast use texts_push;
        self.calls.push(call);
        proof {
            self.trace@ = self.trace@.push(question);
        }
    }
}

impl Default for Fixture {
    fn default() -> (r: Self)
        ensures
            r.script() == (Script {
                commands: Seq::empty(),
                which: Seq::empty(),
                exists: Seq::empty(),
                files: Seq::empty(),
                realpath: Seq::empty(),
                stat: Seq::empty(),
                sizes: Seq::empty(),
                text: Seq::empty(),
                mounts: Seq::empty(),
                container: false,
                cmdline: Seq::empty(),
                devs: Seq::empty(),
                tmp_exec: Seq::empty(),
                tmpdir: Seq::empty(),
                keydata: None,
                calls: Seq::empty(),
                log: Seq::empty(),
            }),
            r.trace@ == Seq::<Call>::empty(),
    {
        let r = Fixture {
            commands: Vec::new(),
            which: Vec::new(),
            exists: Vec::new(),
            files: Vec::new(),
            realpath: Vec::new(),
            stat: Vec::new(),
            sizes: Vec::new(),
            text: Vec::new(),
            mounts: Vec::new(),
            container: false,
            cmdline: String::new(),
            devs: Vec::new(),
            tmp_exec: String::new(),
            tmpdir: String::new(),
            keydata: None,
            calls: Vec::new(),
            log: Vec::new(),
            trace: Ghost(Seq::empty()),
        };
        proof {
            let w = r.script();
            assert(w.commands =~= Seq::empty());
            assert(w.which =~= Seq::empty());
            assert(w.exists =~= Seq::empty());
            assert(w.files =~= Seq::empty());
            assert(w.realpath =~= Seq::empty());
            assert(w.stat =~= Seq::empty());
            assert(w.sizes =~= Seq::empty());
            assert(w.text =~= Seq::empty());
            assert(w.mounts =~= Seq::empty());
            assert(w.devs =~= Seq::empty());
            assert(w.calls =~= Seq::empty());
            assert(w.log =~= Seq::empty());
        }
        r
    }
}

fn stat_index(table: &Vec<(String, u32)>, key: &str) -> (r: Option<usize>)
    ensures
        match r {
            Some(i) => i < table@.len() && lookup(stat_table(table@), key@) == Some(stat_table(table@)[i as int].1),
            None => lookup(stat_table(table@), key@) is None,
        },
{
    let ghost t = stat_table(table@);
    let mut i: usize = 0;
    assert(t.skip(0) =~= t);
    while i < table.len()
        invariant
            i <= table@.len(),
            t == stat_table(table@),
            lookup(t.skip(i as int), key@) == lookup(t, key@),
        decreases table.len() - i,
    {
        if same(table[i].0.as_str(), key) {
            return Some(i);
        }
        assert(t.skip(i as int).skip(1) =~= t.skip(i + 1));
        i += 1;
    }
    None
}

fn mount_index(table: &Vec<(String, Mounted)>, key: &str) -> (r: Option<usize>)
    ensures
        match r {
            Some(i) => i < table@.len() && lookup(mount_table(table@), key@) == Some(mount_table(table@)[i as int].1),
            None => lookup(mount_table(table@), key@) is None,
        },
{
    let ghost t = mount_table(table@);
    let mut i: usize = 0;
    assert(t.skip(0) =~= t);
    while i < table.len()
        invariant
            i <= table@.len(),
            t == mount_table(table@),
            lookup(t.skip(i as int), key@) == lookup(t, key@),
        decreases table.len() - i,
    {
        if same(table[i].0.as_str(), key) {
            return Some(i);
        }
        assert(t.skip(i as int).skip(1) =~= t.skip(i + 1));
        i += 1;
    }
    None
}

fn dev_index(table: &Vec<(String, Vec<String>)>, key: &str) -> (r: Option<usize>)
    ensures
        match r {
            Some(i) => i < table@.len() && lookup(dev_table(table@), key@) == Some(dev_table(table@)[i as int].1),
            None => lookup(dev_table(table@), key@) is None,
        },
{
    let ghost t = dev_table(table@);
    let mut i: usize = 0;
    assert(t.skip(0) =~= t);
    while i < table.len()
        invariant
            i <= table@.len(),
            t == dev_table(table@),
            lookup(t.skip(i as int), key@) == lookup(t, key@),
        decreases table.len() - i,
    {
        if same(table[i].0.as_str(), key) {
            return Some(i);
        }
        assert(t.skip(i as int).skip(1) =~= t.skip(i + 1));
        i += 1;
    }
    None
}

fn env_lines(env: &Vec<(String, String)>) -> (r: Vec<String>)
    ensures
        texts(r@) == env_texts(text_table(env@)),
{
    broadcast use texts_push;
    let ghost want = env_texts(text_table(env@));
    let mut out: Vec<String> = Vec::new();
    let mut i: usize = 0;
    while i < env.len()
        invariant
            i <= env@.len(),
            want == env_texts(text_table(env@)),
            texts(out@) == want.take(i as int),
        decreases env.len() - i,
    {
        out.push(cat3(env[i].0.as_str(), "=", env[i].1.as_str()));
        i += 1;
        assert(want.take(i as int) =~= want.take(i - 1).push(want[i - 1]));
    }
    assert(want.take(i as int) =~= want);
    out
}

/// Where a device stands in the list of sizes.
proof fn sizes_after_at(sizes: Seq<(Seq<char>, Seq<Option<u64>>)>, path: Seq<char>, i: int)
    requires
        0 <= i < sizes.len(),
        sizes[i].0 == path,
        forall|j: int| 0 <= j < i ==> (#[trigger] sizes[j]).0 != path,
    ensures
        lookup(sizes, path) == Some(sizes[i].1),
        sizes_after(sizes, path) == (if sizes[i].1.len() > 1 {
            sizes.update(i, (path, sizes[i].1.skip(1)))
        } else {
            sizes
        }),
    decreases i,
{
    if i > 0 {
        let rest = sizes.skip(1);
        assert(sizes[0].0 != path);
        assert forall|j: int| 0 <= j < i - 1 implies (#[trigger] rest[j]).0 != path by {
            assert(rest[j] == sizes[j + 1]);
        }
        sizes_after_at(rest, path, i - 1);
        assert(seq![sizes[0]] + rest =~= sizes);
        if sizes[i].1.len() > 1 {
            assert(seq![sizes[0]] + rest.update(i - 1, (path, sizes[i].1.skip(1))) =~= sizes.update(
                i,
                (path, sizes[i].1.skip(1)),
            ));
        }
    }
}

proof fn sizes_after_none(sizes: Seq<(Seq<char>, Seq<Option<u64>>)>, path: Seq<char>)
    requires
        forall|j: int| 0 <= j < sizes.len() ==> (#[trigger] sizes[j]).0 != path,
    ensures
        lookup(sizes, path) is None,
        sizes_after(sizes, path) == sizes,
    decreases sizes.len(),
{
    if sizes.len() > 0 {
        let rest = sizes.skip(1);
        assert(sizes[0].0 != path);
        assert forall|j: int| 0 <= j < rest.len() implies (#[trigger] rest[j]).0 != path by {
            assert(rest[j] == sizes[j + 1]);
        }
        sizes_after_none(rest, path);
        assert(seq![sizes[0]] + rest =~= sizes);
    }
}

impl Fixture {
    fn take_size(&mut self, path: &str) -> (r: Result<u64, OpenError>)
        ensures
            size_result(r) == next_size(old(self).script().sizes, path@),
            final(self).script() == (Script {
                sizes: sizes_after(old(self).script().sizes, path@),
                ..old(self).script()
            }),
            final(self).trace@ == old(self).trace@,
    {
        let ghost t = size_table(self.sizes@);
        let mut i: usize = 0;
        while i < self.sizes.len()
            invariant
                *self == *old(self),
                i <= self.sizes@.len(),
                t == size_table(self.sizes@),
                forall|j: int| 0 <= j < i ==> (#[trigger] t[j]).0 != path@,
            decreases self.sizes.len() - i,
        {
            if same(self.sizes[i].0.as_str(), path) {
                proof {
                    assert(t[i as int].0 == path@);
                    sizes_after_at(t, path@, i as int);
                }
                let n = self.sizes[i].1.len();
                if n == 0 {
                    return Err(OpenError::NotFound);
                }
                let first = self.sizes[i].1[0];
                if n > 1 {
                    let mut rest: Vec<Option<u64>> = Vec::new();
                    let mut k: usize = 1;
                    let ghost list = self.sizes@[i as int].1@;
                    while k < n
                        invariant
                            1 <= k <= n,
                            i < self.sizes@.len(),
                            *self == *old(self),
                            list == self.sizes@[i as int].1@,
                            n == list.len(),
                            rest@ == list.subrange(1, k as int),
                        decreases n - k,
                    {
                        rest.push(self.sizes[i].1[k]);
                        k += 1;
                        assert(list.subrange(1, k as int) =~= list.subrange(1, k - 1).push(list[k - 1]));
                    }
                    assert(rest@ =~= list.skip(1));
                    let name = self.sizes[i].0.clone();
                    self.sizes.set(i, (name, rest));
                    assert(size_table(self.sizes@) =~= t.update(i as int, (path@, list.skip(1))));
                }
                return match first {
                    Some(size) => Ok(size),
                    None => Err(OpenError::NotFound),
                };
            }
            i += 1;
        }
        proof {
            sizes_after_none(t, path@);
        }
        Err(OpenError::NotFound)
    }
}

fn not_there(path: &str) -> (r: String)
    ensures
        r@ == no_such_file(path@),
{
    cat3("[Errno 2] No such file or directory: '", path, "'")
}

impl Host for Fixture {
    type World = Script;

    open spec fn machine(&self) -> Machine<Call, Script> {
        Machine { calls: self.trace@, world: self.script() }
    }

    open spec fn reply(world: Script, call: Call) -> (Script, Answer) {
        (script_after(world, call), script_answer(world, call))
    }

    fn subp(&mut self, argv: &Vec<String>, env: &Vec<(String, String)>, data: Option<&Vec<u8>>) -> (r: Result<
        (String, String),
        ProcError,
    >) {
        let key = join_with(argv, " ");
        let size = match data {
            Some(d) => dec_of(d.len() as u128),
            None => "-1".to_owned(),
        };
        let text = cat6(
            "subp ",
            key.as_str(),
            " env=",
            join_with(&env_lines(env), ",").as_str(),
            " data=",
            size.as_str(),
        );
        self.record(
            text,
            Ghost(Call::Subp { argv: texts(argv@), env: text_table(env@), data: opt_bytes(data) }),
        );
        let mut rcs: Vec<i32> = Vec::new();
        rcs.push(0);
        assert(int_list(rcs@) =~= seq![0int]);
        answer_command(argv, lookup_command(&self.commands, key.as_str()), &rcs)
    }

    fn which(&mut self, program: &str) -> (r: bool) {
        self.record(cat2("which ", program), Ghost(Call::Which(program@)));
        has_text(&self.which, program)
    }

    fn path_exists(&mut self, path: &str) -> (r: bool) {
        self.record(cat2("exists ", path), Ghost(Call::Exists(path@)));
        has_text(&self.exists, path)
    }

    fn is_file(&mut self, path: &str) -> (r: bool) {
        self.record(cat2("isfile ", path), Ghost(Call::IsFile(path@)));
        has_text(&self.files, path)
    }

    fn realpath(&mut self, path: &str) -> (r: String) {
        self.record(cat2("realpath ", path), Ghost(Call::RealPath(path@)));
        match lookup_text(&self.realpath, path) {
            Some(p) => p,
            None => path.to_owned(),
        }
    }

    fn stat_mode(&mut self, path: &str) -> (r: Result<u32, String>) {
        self.record(cat2("stat ", path), Ghost(Call::StatMode(path@)));
        match stat_index(&self.stat, path) {
            Some(i) => Ok(self.stat[i].1),
            None => Err(not_there(path)),
        }
    }

    fn seek_size(&mut self, path: &str) -> (r: Result<u64, OpenError>) {
        self.record(cat2("size ", path), Ghost(Call::SeekSize(path@)));
        self.take_size(path)
    }

    fn read_text(&mut self, path: &str) -> (r: Result<String, String>) {
        self.record(cat2("read ", path), Ghost(Call::ReadText(path@)));
        match lookup_text(&self.text, path) {
            Some(text) => Ok(text),
            None => Err(not_there(path)),
        }
    }

    fn mount_info(&mut self, path: &str) -> (r: Option<Mounted>) {
        self.record(cat2("mount_info ", path), Ghost(Call::MountInfo(path@)));
        match mount_index(&self.mounts, path) {
            Some(i) => Some(self.mounts[i].1.copy()),
            None => None,
        }
    }

    fn is_container(&mut self) -> (r: bool) {
        self.record("is_container".to_owned(), Ghost(Call::IsContainer));
        self.container
    }

    fn cmdline(&mut self) -> (r: String) {
        self.record("cmdline".to_owned(), Ghost(Call::CmdLine));
        self.cmdline.clone()
    }

    fn find_devs_with(&mut self, criteria: &str) -> (r: Vec<String>) {
        self.record(cat2("find_devs_with ", criteria), Ghost(Call::FindDevs(criteria@)));
        match dev_index(&self.devs, criteria) {
            Some(i) => copy_strings(&self.devs[i].1),
            None => {
                let none: Vec<String> = Vec::new();
                assert(texts(none@) =~= Seq::empty());
                none
            },
        }
    }

    fn tmp_exec_path(&mut self) -> (r: String) {
        self.record("tmp_exec_path".to_owned(), Ghost(Call::TmpExecPath));
        self.tmp_exec.clone()
    }

    fn mkdtemp(&mut self, dir: &str) -> (r: Result<String, String>) {
        self.record(cat2("mkdtemp ", dir), Ghost(Call::MkdTemp(dir@)));
        Ok(self.tmpdir.clone())
    }

    fn rmtree(&mut self, path: &str) {
        self.record(cat2("rmtree ", path), Ghost(Call::RmTree(path@)));
    }

    fn mkdir(&mut self, path: &str) -> (r: Result<(), String>) {
        self.record(cat2("mkdir ", path), Ghost(Call::MkDir(path@)));
        Ok(())
    }

    fn read_keydata(&mut self) -> (r: Option<Result<String, String>>) {
        self.record("read_keydata".to_owned(), Ghost(Call::ReadKeydata));
        match &self.keydata {
            Some(text) => Some(Ok(text.clone())),
            None => None,
        }
    }

    fn unlink_keydata(&mut self) -> (r: Result<(), String>) {
        self.record("unlink_keydata".to_owned(), Ghost(Call::UnlinkKeydata));
        self.keydata = None;
        Ok(())
    }

    fn manage_service(&mut self, action: &str, service: &str) -> (r: Result<(), ProcError>) {
        self.record(
            cat4("manage_service ", action, " ", service),
            Ghost(Call::ManageService { action: action@, service: service@ }),
        );
        Ok(())
    }

    fn report(&mut self, level: Level, source: &str, text: &str) {
        broadcast use texts_push;
        self.log.push(log_line_of(level, source, text));
        proof {
            self.trace@ = self.trace@.push(Call::Report { level, source: source@, text: text@ });
        }
    }
}

}
