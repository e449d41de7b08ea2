//! What setting up chef asks of the machine.

use vstd::prelude::*;

use crate::cc::growpart::{list_text, py_list};
use crate::cc::{
    cmd_result, fail_as_scripted, failure, has_key, list_table, lookup_list, text_result, texts_result, unit_result,
    CmdError, CmdFailed,
};
use crate::machine::{answers, asked, log_line, log_line_of, lookup, lookup_text, text_table, Level, Machine};
use crate::number::{dec_int, dec_int_of, octal4, octal4_of};
use crate::paths::{path_join, path_joined};
use crate::show::{py_str, show};
use crate::text::{cat2, cat3, cat4, has_text, join, join_with, texts, texts_push};
use crate::value::{Node, Object, Val};

verus! {

/// A question to the machine.
pub enum Call {
    EnsureDir(Val),
    EnsureDirs(Seq<Seq<char>>),
    Exists(Seq<char>),
    IsFile(Seq<char>),
    ListDir(Seq<char>),
    Move { src: Seq<char>, dest: Seq<char> },
    WriteFile { path: Seq<char>, content: Seq<char>, mode: u32 },
    Unlink(Seq<char>),
    TemplatePath(Seq<char>),
    LoadText(Seq<char>),
    Render { text: Seq<char>, params: Seq<(Seq<char>, Val)> },
    InstanceId,
    MakeHeader,
    IsExe(Seq<char>),
    InstallPackages(Seq<Seq<char>>),
    Subp(Seq<Seq<char>>),
    ReadUrl { url: Seq<char>, retries: int },
    TempDir,
    SymLink { source: Seq<char>, link: Seq<char> },
    Renderer(Seq<char>),
    Report { level: Level, source: Seq<char>, text: Seq<char> },
}

/// The machine's answer to a question.
pub enum Answer {
    Done(Result<(), Seq<char>>),
    Flag(bool),
    Names(Result<Seq<Seq<char>>, Seq<char>>),
    Template((Seq<char>, bool)),
    Read(Result<Seq<char>, Seq<char>>),
    Text(Seq<char>),
    Ran(Result<(), CmdFailed>),
    Nothing,
}

/// Everything that setting up chef asks of the machine.
///
/// A machine is a state and a rule: [`Host::reply`] gives, for a state and a
/// call, the next state and the answer.
pub trait Host: Sized {
    type World;

    spec fn machine(&self) -> Machine<Call, Self::World>;

    spec fn reply(world: Self::World, call: Call) -> (Self::World, Answer);

    /// Makes a directory and those above it. The path is whatever the configuration holds.
    fn ensure_dir(&mut self, path: &Node) -> (r: Result<(), String>)
        ensures
            answers(
                old(self).machine(),
                Call::EnsureDir(path@),
                Self::reply(old(self).machine().world, Call::EnsureDir(path@)),
                final(self).machine(),
                Answer::Done(unit_result(r)),
            ),
    ;

    /// Makes directories and those above them.
    fn ensure_dirs(&mut self, paths: &Vec<String>) -> (r: Result<(), String>)
        ensures
            answers(
                old(self).machine(),
                Call::EnsureDirs(texts(paths@)),
                Self::reply(old(self).machine().world, Call::EnsureDirs(texts(paths@))),
                final(self).machine(),
                Answer::Done(unit_result(r)),
            ),
    ;

    /// Whether a path exists.
    fn path_exists(&mut self, path: &str) -> (r: bool)
        ensures
            answers(
                old(self).machine(),
                Call::Exists(path@),
                Self::reply(old(self).machine().world, Call::Exists(path@)),
                final(self).machine(),
                Answer::Flag(r),
            ),
    ;

    /// Whether a path is a regular file.
    fn is_file(&mut self, path: &str) -> (r: bool)
        ensures
            answers(
                old(self).machine(),
                Call::IsFile(path@),
                Self::reply(old(self).machine().world, Call::IsFile(path@)),
                final(self).machine(),
                Answer::Flag(r),
            ),
    ;

    /// The names in a directory.
    fn listdir(&mut self, path: &str) -> (r: Result<Vec<String>, String>)
        ensures
            answers(
                old(self).machine(),
                Call::ListDir(path@),
                Self::reply(old(self).machine().world, Call::ListDir(path@)),
                final(self).machine(),
                Answer::Names(texts_result(r)),
            ),
    ;

    /// Moves a file into a directory.
    fn move_path(&mut self, src: &str, dest: &str) -> (r: Result<(), String>)
        ensures
            answers(
                old(self).machine(),
                Call::Move { src: src@, dest: dest@ },
                Self::reply(old(self).machine().world, Call::Move { src: src@, dest: dest@ }),
                final(self).machine(),
                Answer::Done(unit_result(r)),
            ),
    ;

    /// Writes a file with a mode.
    fn write_file(&mut self, path: &str, content: &str, mode: u32) -> (r: Result<(), String>)
        ensures
            answers(
                old(self).machine(),
                Call::WriteFile { path: path@, content: content@, mode },
                Self::reply(old(self).machine().world, Call::WriteFile { path: path@, content: content@, mode }),
                final(self).machine(),
                Answer::Done(unit_result(r)),
            ),
    ;

    /// Removes a file.
    fn unlink(&mut self, path: &str) -> (r: Result<(), String>)
        ensures
            answers(
                old(self).machine(),
                Call::Unlink(path@),
                Self::reply(old(self).machine().world, Call::Unlink(path@)),
                final(self).machine(),
                Answer::Done(unit_result(r)),
            ),
    ;

    /// Where a template is looked for, and whether it is there.
    fn template_path(&mut self, name: &str) -> (r: (String, bool))
        ensures
            answers(
                old(self).machine(),
                Call::TemplatePath(name@),
                Self::reply(old(self).machine().world, Call::TemplatePath(name@)),
                final(self).machine(),
                Answer::Template((r.0@, r.1)),
            ),
    ;

    /// The text of a file.
    fn load_text_file(&mut self, path: &str) -> (r: Result<String, String>)
        ensures
            answers(
                old(self).machine(),
                Call::LoadText(path@),
                Self::reply(old(self).machine().world, Call::LoadText(path@)),
                final(self).machine(),
                Answer::Read(text_result(r)),
            ),
    ;

    /// What a template is rendered with, as it says itself.
    fn renderer(&mut self, text: &str) -> (r: Result<String, String>)
        ensures
            answers(
                old(self).machine(),
                Call::Renderer(text@),
                Self::reply(old(self).machine().world, Call::Renderer(text@)),
                final(self).machine(),
                Answer::Read(text_result(r)),
            ),
    ;

    /// A template filled in with parameters.
    fn render(&mut self, text: &str, params: &Object) -> (r: Result<String, String>)
        ensures
            answers(
                old(self).machine(),
                Call::Render { text: text@, params: params@ },
                Self::reply(old(self).machine().world, Call::Render { text: text@, params: params@ }),
                final(self).machine(),
                Answer::Read(text_result(r)),
            ),
    ;

    /// The instance's identifier.
    fn instance_id(&mut self) -> (r: String)
        ensures
            answers(
                old(self).machine(),
                Call::InstanceId,
                Self::reply(old(self).machine().world, Call::InstanceId),
                final(self).machine(),
                Answer::Text(r@),
            ),
    ;

    /// The line that says when a file was made.
    fn make_header(&mut self) -> (r: String)
        ensures
            answers(
                old(self).machine(),
                Call::MakeHeader,
                Self::reply(old(self).machine().world, Call::MakeHeader),
                final(self).machine(),
                Answer::Text(r@),
            ),
    ;

    /// Whether a path can be run.
    fn is_exe(&mut self, path: &str) -> (r: bool)
        ensures
            answers(
                old(self).machine(),
                Call::IsExe(path@),
                Self::reply(old(self).machine().world, Call::IsExe(path@)),
                final(self).machine(),
                Answer::Flag(r),
            ),
    ;

    /// Installs packages.
    fn install_packages(&mut self, packages: &Vec<String>) -> (r: Result<(), String>)
        ensures
            answers(
                old(self).machine(),
                Call::InstallPackages(texts(packages@)),
                Self::reply(old(self).machine().world, Call::InstallPackages(texts(packages@))),
                final(self).machine(),
                Answer::Done(unit_result(r)),
            ),
    ;

    /// Runs a command.
    fn subp(&mut self, argv: &Vec<String>) -> (r: Result<(), CmdError>)
        ensures
            answers(
                old(self).machine(),
                Call::Subp(texts(argv@)),
                Self::reply(old(self).machine().world, Call::Subp(texts(argv@))),
                final(self).machine(),
                Answer::Ran(cmd_result(r)),
            ),
    ;

    /// What is at an address, tried again so many times.
    fn readurl(&mut self, url: &str, retries: i64) -> (r: Result<String, String>)
        ensures
            answers(
                old(self).machine(),
                Call::ReadUrl { url: url@, retries: retries as int },
                Self::reply(old(self).machine().world, Call::ReadUrl { url: url@, retries: retries as int }),
                final(self).machine(),
                Answer::Read(text_result(r)),
            ),
    ;

    /// A new temporary directory.
    fn tempdir(&mut self) -> (r: Result<String, String>)
        ensures
            answers(
                old(self).machine(),
                Call::TempDir,
                Self::reply(old(self).machine().world, Call::TempDir),
                final(self).machine(),
                Answer::Read(text_result(r)),
            ),
    ;

    /// Makes a symbolic link.
    fn sym_link(&mut self, source: &str, link: &str) -> (r: Result<(), String>)
        ensures
            answers(
                old(self).machine(),
                Call::SymLink { source: source@, link: link@ },
                Self::reply(old(self).machine().world, Call::SymLink { source: source@, link: link@ }),
                final(self).machine(),
                Answer::Done(unit_result(r)),
            ),
    ;

    /// Writes a line to the log, under the name of what it comes from.
    fn report(&mut self, level: Level, source: &str, text: &str)
        ensures
            final(self).machine() == asked(
                old(self).machine(),
                Call::Report { level, source: source@, text: text@ },
                Self::reply(old(self).machine().world, Call::Report { level, source: source@, text: text@ }).0,
            ),
    ;
}

/// A machine that the module works on.
pub type Kitchen<H> = Machine<Call, <H as Host>::World>;

pub open spec fn ask_report<H: Host>(m: Kitchen<H>, level: Level, source: Seq<char>, text: Seq<char>) -> Kitchen<H> {
    let call = Call::Report { level, source, text };
    asked(m, call, H::reply(m.world, call).0)
}

/// The name under which the module writes to the log.
pub const SOURCE: &'static str = "cc_chef.py";

/// A line that only helps to follow what happens.
pub open spec fn logged<H: Host>(m: Kitchen<H>, text: Seq<char>) -> Kitchen<H> {
    ask_report::<H>(m, Level::Debug, SOURCE@, text)
}

pub fn log_debug<H: Host>(host: &mut H, text: &str)
    ensures
        final(host).machine() == logged::<H>(old(host).machine(), text@),
{
    host.report(Level::Debug, SOURCE, text);
}

/// A line on what happens.
pub open spec fn informed<H: Host>(m: Kitchen<H>, text: Seq<char>) -> Kitchen<H> {
    ask_report::<H>(m, Level::Info, SOURCE@, text)
}

pub fn log_info<H: Host>(host: &mut H, text: &str)
    ensures
        final(host).machine() == informed::<H>(old(host).machine(), text@),
{
    host.report(Level::Info, SOURCE, text);
}

/// A warning.
pub open spec fn warned<H: Host>(m: Kitchen<H>, text: Seq<char>) -> Kitchen<H> {
    ask_report::<H>(m, Level::Warning, SOURCE@, text)
}

pub fn log_warn<H: Host>(host: &mut H, text: &str)
    ensures
        final(host).machine() == warned::<H>(old(host).machine(), text@),
{
    host.report(Level::Warning, SOURCE, text);
}

pub open spec fn ask_ensure_dir<H: Host>(m: Kitchen<H>, path: Val) -> (Kitchen<H>, Result<(), Seq<char>>) {
    let (w, a) = H::reply(m.world, Call::EnsureDir(path));
    (asked(m, Call::EnsureDir(path), w), a->Done_0)
}

pub open spec fn ask_ensure_dirs<H: Host>(m: Kitchen<H>, paths: Seq<Seq<char>>) -> (Kitchen<H>, Result<(), Seq<char>>) {
    let (w, a) = H::reply(m.world, Call::EnsureDirs(paths));
    (asked(m, Call::EnsureDirs(paths), w), a->Done_0)
}

pub open spec fn ask_path_exists<H: Host>(m: Kitchen<H>, path: Seq<char>) -> (Kitchen<H>, bool) {
    let (w, a) = H::reply(m.world, Call::Exists(path));
    (asked(m, Call::Exists(path), w), a->Flag_0)
}

pub open spec fn ask_is_file<H: Host>(m: Kitchen<H>, path: Seq<char>) -> (Kitchen<H>, bool) {
    let (w, a) = H::reply(m.world, Call::IsFile(path));
    (asked(m, Call::IsFile(path), w), a->Flag_0)
}

pub open spec fn ask_listdir<H: Host>(m: Kitchen<H>, path: Seq<char>) -> (Kitchen<H>, Result<Seq<Seq<char>>, Seq<char>>) {
    let (w, a) = H::reply(m.world, Call::ListDir(path));
    (asked(m, Call::ListDir(path), w), a->Names_0)
}

pub open spec fn ask_move_path<H: Host>(m: Kitchen<H>, src: Seq<char>, dest: Seq<char>) -> (Kitchen<H>, Result<(), Seq<char>>) {
    let (w, a) = H::reply(m.world, Call::Move { src, dest });
    (asked(m, Call::Move { src, dest }, w), a->Done_0)
}

pub open spec fn ask_write_file<H: Host>(m: Kitchen<H>, path: Seq<char>, content: Seq<char>, mode: u32) -> (Kitchen<H>, Result<(), Seq<char>>) {
    let (w, a) = H::reply(m.world, Call::WriteFile { path, content, mode });
    (asked(m, Call::WriteFile { path, content, mode }, w), a->Done_0)
}

pub open spec fn ask_unlink<H: Host>(m: Kitchen<H>, path: Seq<char>) -> (Kitchen<H>, Result<(), Seq<char>>) {
    let (w, a) = H::reply(m.world, Call::Unlink(path));
    (asked(m, Call::Unlink(path), w), a->Done_0)
}

pub open spec fn ask_template_path<H: Host>(m: Kitchen<H>, name: Seq<char>) -> (Kitchen<H>, (Seq<char>, bool)) {
    let (w, a) = H::reply(m.world, Call::TemplatePath(name));
    (asked(m, Call::TemplatePath(name), w), a->Template_0)
}

pub open spec fn ask_load_text_file<H: Host>(m: Kitchen<H>, path: Seq<char>) -> (Kitchen<H>, Result<Seq<char>, Seq<char>>) {
    let (w, a) = H::reply(m.world, Call::LoadText(path));
    (asked(m, Call::LoadText(path), w), a->Read_0)
}

pub open spec fn ask_renderer<H: Host>(m: Kitchen<H>, text: Seq<char>) -> (Kitchen<H>, Result<Seq<char>, Seq<char>>) {
    let (w, a) = H::reply(m.world, Call::Renderer(text));
    (asked(m, Call::Renderer(text), w), a->Read_0)
}

pub open spec fn ask_render<H: Host>(m: Kitchen<H>, text: Seq<char>, params: Seq<(Seq<char>, Val)>) -> (Kitchen<H>, Result<Seq<char>, Seq<char>>) {
    let (w, a) = H::reply(m.world, Call::Render { text, params });
    (asked(m, Call::Render { text, params }, w), a->Read_0)
}

pub open spec fn ask_instance_id<H: Host>(m: Kitchen<H>) -> (Kitchen<H>, Seq<char>) {
    let (w, a) = H::reply(m.world, Call::InstanceId);
    (asked(m, Call::InstanceId, w), a->Text_0)
}

pub open spec fn ask_make_header<H: Host>(m: Kitchen<H>) -> (Kitchen<H>, Seq<char>) {
    let (w, a) = H::reply(m.world, Call::MakeHeader);
    (asked(m, Call::MakeHeader, w), a->Text_0)
}

pub open spec fn ask_is_exe<H: Host>(m: Kitchen<H>, path: Seq<char>) -> (Kitchen<H>, bool) {
    let (w, a) = H::reply(m.world, Call::IsExe(path));
    (asked(m, Call::IsExe(path), w), a->Flag_0)
}

pub open spec fn ask_install_packages<H: Host>(m: Kitchen<H>, packages: Seq<Seq<char>>) -> (Kitchen<H>, Result<(), Seq<char>>) {
    let (w, a) = H::reply(m.world, Call::InstallPackages(packages));
    (asked(m, Call::InstallPackages(packages), w), a->Done_0)
}

pub open spec fn ask_subp<H: Host>(m: Kitchen<H>, argv: Seq<Seq<char>>) -> (Kitchen<H>, Result<(), CmdFailed>) {
    let (w, a) = H::reply(m.world, Call::Subp(argv));
    (asked(m, Call::Subp(argv), w), a->Ran_0)
}

pub open spec fn ask_readurl<H: Host>(m: Kitchen<H>, url: Seq<char>, retries: int) -> (Kitchen<H>, Result<Seq<char>, Seq<char>>) {
    let (w, a) = H::reply(m.world, Call::ReadUrl { url, retries });
    (asked(m, Call::ReadUrl { url, retries }, w), a->Read_0)
}

pub open spec fn ask_tempdir<H: Host>(m: Kitchen<H>) -> (Kitchen<H>, Result<Seq<char>, Seq<char>>) {
    let (w, a) = H::reply(m.world, Call::TempDir);
    (asked(m, Call::TempDir, w), a->Read_0)
}

pub open spec fn ask_sym_link<H: Host>(m: Kitchen<H>, source: Seq<char>, link: Seq<char>) -> (Kitchen<H>, Result<(), Seq<char>>) {
    let (w, a) = H::reply(m.world, Call::SymLink { source, link });
    (asked(m, Call::SymLink { source, link }, w), a->Done_0)
}

// ---------------------------------------------------------------------------
// A scripted machine

/// A machine whose every answer is set up front, and which writes down what it
/// is asked.
pub struct Fixture {
    /// Files that are there, with what is in them.
    pub files: Vec<(String, String)>,
    /// Directories that are there, with the names in them.
    pub dirs: Vec<(String, Vec<String>)>,
    /// Paths that can be run.
    pub exes: Vec<String>,
    /// What is at each address.
    pub urls: Vec<(String, String)>,
    /// Calls that fail, by what is written down of them, and the message.
    pub errors: Vec<(String, String)>,
    /// What templates are rendered to; one that is not here stays as it is.
    pub rendered: Vec<(String, String)>,
    pub templates_dir: String,
    pub instance_id: String,
    /// What templates are rendered with.
    pub renderer: String,
    pub header: String,
    pub tmpdir: String,
    /// What was asked, in order.
    pub calls: Vec<String>,
    /// What was written, in order.
    pub written: Vec<(String, String)>,
    /// The lines of the log, in order.
    pub log: Vec<String>,
    /// The questions themselves.
    pub trace: Ghost<Seq<Call>>,
}

/// The script of a [`Fixture`] and what it wrote down.
pub struct Script {
    pub files: Seq<(Seq<char>, Seq<char>)>,
    pub dirs: Seq<(Seq<char>, Seq<Seq<char>>)>,
    pub exes: Seq<Seq<char>>,
    pub urls: Seq<(Seq<char>, Seq<char>)>,
    pub errors: Seq<(Seq<char>, Seq<char>)>,
    pub rendered: Seq<(Seq<char>, Seq<char>)>,
    pub templates_dir: Seq<char>,
    pub instance_id: Seq<char>,
    pub renderer: Seq<char>,
    pub header: Seq<char>,
    pub tmpdir: Seq<char>,
    pub calls: Seq<Seq<char>>,
    pub written: Seq<(Seq<char>, Seq<char>)>,
    pub log: Seq<Seq<char>>,
}

/// What a [`Fixture`] writes down when it is asked something.
pub open spec fn line(call: Call) -> Option<Seq<char>> {
    match call {
        Call::Report { level, source, text } => None,
        Call::EnsureDir(path) => Some("ensure_dir "@ + show(path)),
        Call::EnsureDirs(paths) => Some("ensure_dirs "@ + list_text(paths)),
        Call::Exists(path) => Some("exists "@ + path),
        Call::IsFile(path) => Some("isfile "@ + path),
        Call::ListDir(path) => Some("listdir "@ + path),
        Call::Move { src, dest } => Some("move "@ + src + " "@ + dest),
        Call::WriteFile { path, content, mode } => Some(
            "write_file "@ + path + " mode="@ + octal4(mode as nat),
        ),
        Call::Unlink(path) => Some("unlink "@ + path),
        Call::TemplatePath(name) => None,
        Call::LoadText(path) => Some("load_text_file "@ + path),
        Call::Renderer(text) => None,
        Call::Render { text, params } => None,
        Call::InstanceId => Some("get_instance_id"@),
        Call::MakeHeader => Some("make_header"@),
        Call::IsExe(path) => Some("is_exe "@ + path),
        Call::InstallPackages(packages) => Some("install_packages "@ + list_text(packages)),
        Call::Subp(argv) => Some("subp "@ + join(argv, " "@)),
        Call::ReadUrl { url, retries } => Some("readurl "@ + url + " retries="@ + dec_int(retries)),
        Call::TempDir => Some("tempdir"@),
        Call::SymLink { source, link } => Some("sym_link "@ + source + " "@ + link),
    }
}

/// Whether a call is scripted to fail.
pub open spec fn fails(s: Script, call: Call) -> Result<(), Seq<char>> {
    match line(call) {
        Some(text) => failure(s.errors, text),
        None => Ok(()),
    }
}

/// An answer, unless the call is scripted to fail.
pub open spec fn unless_failed<T>(r: Result<(), Seq<char>>, answer: Result<T, Seq<char>>) -> Result<T, Seq<char>> {
    match r {
        Ok(()) => answer,
        Err(e) => Err(e),
    }
}

pub open spec fn template_at(s: Script, name: Seq<char>) -> Seq<char> {
    path_joined(s.templates_dir, name + ".tmpl"@)
}

/// What a script answers.
pub open spec fn script_answer(s: Script, call: Call) -> Answer {
    let failed = fails(s, call);
    match call {
        Call::Report { level, source, text } => Answer::Nothing,
        Call::Exists(path) => Answer::Flag(has_key(s.files, path) || lookup(s.dirs, path) is Some),
        Call::IsFile(path) => Answer::Flag(has_key(s.files, path)),
        Call::ListDir(path) => Answer::Names(
            unless_failed(
                failed,
                Ok(
                    match lookup(s.dirs, path) {
                        Some(names) => names,
                        None => Seq::empty(),
                    },
                ),
            ),
        ),
        Call::TemplatePath(name) => Answer::Template((template_at(s, name), has_key(s.files, template_at(s, name)))),
        Call::LoadText(path) => Answer::Read(
            unless_failed(
                failed,
                match lookup(s.files, path) {
                    Some(text) => Ok(text),
                    None => Err("[Errno 2] No such file or directory: '"@ + path + "'"@),
                },
            ),
        ),
        Call::Renderer(text) => Answer::Read(Ok(s.renderer)),
        Call::Render { text, params } => Answer::Read(
            Ok(
                match lookup(s.rendered, text) {
                    Some(out) => out,
                    None => text,
                },
            ),
        ),
        Call::InstanceId => Answer::Text(s.instance_id),
        Call::MakeHeader => Answer::Text(s.header),
        Call::IsExe(path) => Answer::Flag(s.exes.contains(path)),
        Call::Subp(argv) => Answer::Ran(
            match failed {
                Ok(()) => Ok(()),
                Err(e) => Err(
                    CmdFailed { command: list_text(argv), exit_code: Some(1), stdout: Seq::empty(), stderr: e },
                ),
            },
        ),
        Call::ReadUrl { url, retries } => Answer::Read(
            unless_failed(
                failed,
                match lookup(s.urls, url) {
                    Some(body) => Ok(body),
                    None => Err("Unable to read "@ + url),
                },
            ),
        ),
        Call::TempDir => Answer::Read(unless_failed(failed, Ok(s.tmpdir))),
        _ => Answer::Done(failed),
    }
}

/// The script after it was asked: it wrote down the call, and what a file was to
/// hold.
pub open spec fn script_after(s: Script, call: Call) -> Script {
    match call {
        Call::Report { level, source, text } => Script { log: s.log.push(log_line(level, source, text)), ..s },
        _ => {
            let calls = match line(call) {
                Some(text) => s.calls.push(text),
                None => s.calls,
            };
            match call {
                Call::WriteFile { path, content, mode } => Script { calls, written: s.written.push((path, content)), ..s },
                _ => Script { calls, ..s },
            }
        },
    }
}

impl Fixture {
    /// The script as it is now.
    pub open spec fn script(&self) -> Script {
        Script {
            files: text_table(self.files@),
            dirs: list_table(self.dirs@),
            exes: texts(self.exes@),
            urls: text_table(self.urls@),
            errors: text_table(self.errors@),
            rendered: text_table(self.rendered@),
            templates_dir: self.templates_dir@,
            instance_id: self.instance_id@,
            renderer: self.renderer@,
            header: self.header@,
            tmpdir: self.tmpdir@,
            calls: texts(self.calls@),
            log: texts(self.log@),
            written: text_table(self.written@),
        }
    }

    fn record(&mut self, call: &str, Ghost(question): Ghost<Call>)
        requires
            line(question) == Some(call@),
        ensures
            final(self).script() == (Script { calls: old(self).script().calls.push(call@), ..old(self).script() }),
            final(self).trace@ == old(self).trace@.push(question),
    {
        broadcast use texts_push;
        self.calls.push(call.to_owned());
        proof {
            self.trace@ = self.trace@.push(question);
        }
    }
}

impl Default for Fixture {
    fn default() -> (r: Self)
        ensures
            r.script() == (Script {
                files: Seq::empty(),
                dirs: Seq::empty(),
                exes: Seq::empty(),
                urls: Seq::empty(),
                errors: Seq::empty(),
                rendered: Seq::empty(),
                templates_dir: "/etc/cloud/templates"@,
                instance_id: "i-testing"@,
                renderer: "jinja"@,
                header: "# generated"@,
                tmpdir: "/tmp/tmpdir"@,
                calls: Seq::empty(),
                log: Seq::empty(),
                written: Seq::empty(),
            }),
            r.trace@ == Seq::<Call>::empty(),
    {
        let r = Fixture {
            files: Vec::new(),
            dirs: Vec::new(),
            exes: Vec::new(),
            urls: Vec::new(),
            errors: Vec::new(),
            rendered: Vec::new(),
            templates_dir: "/etc/cloud/templates".to_owned(),
            instance_id: "i-testing".to_owned(),
            renderer: "jinja".to_owned(),
            header: "# generated".to_owned(),
            tmpdir: "/tmp/tmpdir".to_owned(),
            calls: Vec::new(),
            log: Vec::new(),
            written: Vec::new(),
            trace: Ghost(Seq::empty()),
        };
        proof {
            let w = r.script();
            assert(w.files =~= Seq::empty());
            assert(w.dirs =~= Seq::empty());
            assert(w.exes =~= Seq::empty());
            assert(w.urls =~= Seq::empty());
            assert(w.errors =~= Seq::empty());
            assert(w.rendered =~= Seq::empty());
            assert(w.calls =~= Seq::empty());
            assert(w.log =~= Seq::empty());
            assert(w.written =~= Seq::empty());
        }
        r
    }
}

impl Host for Fixture {
    type World = Script;

    open spec fn machine(&self) -> Machine<Call, Script> {
        Machine { calls: self.trace@, world: self.script() }
    }

    open spec fn reply(world: Script, call: Call) -> (Script, Answer) {
        (script_after(world, call), script_answer(world, call))
    }

    fn ensure_dir(&mut self, path: &Node) -> (r: Result<(), String>) {
        let call = cat2("ensure_dir ", py_str(path).as_str());
        self.record(call.as_str(), Ghost(Call::EnsureDir(path@)));
        fail_as_scripted(&self.errors, call.as_str())
    }

    fn ensure_dirs(&mut self, paths: &Vec<String>) -> (r: Result<(), String>) {
        let call = cat2("ensure_dirs ", py_list(paths).as_str());
        self.record(call.as_str(), Ghost(Call::EnsureDirs(texts(paths@))));
        fail_as_scripted(&self.errors, call.as_str())
    }

    fn path_exists(&mut self, path: &str) -> (r: bool) {
        self.record(cat2("exists ", path).as_str(), Ghost(Call::Exists(path@)));
        lookup_text(&self.files, path).is_some() || lookup_list(&self.dirs, path).is_some()
    }

    fn is_file(&mut self, path: &str) -> (r: bool) {
        self.record(cat2("isfile ", path).as_str(), Ghost(Call::IsFile(path@)));
        lookup_text(&self.files, path).is_some()
    }

    fn listdir(&mut self, path: &str) -> (r: Result<Vec<String>, String>) {
        let call = cat2("listdir ", path);
        self.record(call.as_str(), Ghost(Call::ListDir(path@)));
        match fail_as_scripted(&self.errors, call.as_str()) {
            Err(e) => Err(e),
            Ok(()) => match lookup_list(&self.dirs, path) {
                Some(names) => Ok(names),
                None => {
                    let none: Vec<String> = Vec::new();
                    assert(texts(none@) =~= Seq::empty());
                    Ok(none)
                },
            },
        }
    }

    fn move_path(&mut self, src: &str, dest: &str) -> (r: Result<(), String>) {
        let call = cat4("move ", src, " ", dest);
        self.record(call.as_str(), Ghost(Call::Move { src: src@, dest: dest@ }));
        fail_as_scripted(&self.errors, call.as_str())
    }

    fn write_file(&mut self, path: &str, content: &str, mode: u32) -> (r: Result<(), String>) {
        let call = cat4("write_file ", path, " mode=", octal4_of(mode).as_str());
        let ghost before = self.script().written;
        self.record(call.as_str(), Ghost(Call::WriteFile { path: path@, content: content@, mode }));
        self.written.push((path.to_owned(), content.to_owned()));
        assert(self.script().written =~= before.push((path@, content@)));
        fail_as_scripted(&self.errors, call.as_str())
    }

    fn unlink(&mut self, path: &str) -> (r: Result<(), String>) {
        let call = cat2("unlink ", path);
        self.record(call.as_str(), Ghost(Call::Unlink(path@)));
        fail_as_scripted(&self.errors, call.as_str())
    }

    fn template_path(&mut self, name: &str) -> (r: (String, bool)) {
        let path = path_join(self.templates_dir.as_str(), cat2(name, ".tmpl").as_str());
        proof {
            self.trace@ = self.trace@.push(Call::TemplatePath(name@));
        }
        let found = lookup_text(&self.files, path.as_str()).is_some();
        (path, found)
    }

    fn load_text_file(&mut self, path: &str) -> (r: Result<String, String>) {
        let call = cat2("load_text_file ", path);
        self.record(call.as_str(), Ghost(Call::LoadText(path@)));
        match fail_as_scripted(&self.errors, call.as_str()) {
            Err(e) => Err(e),
            Ok(()) => match lookup_text(&self.files, path) {
                Some(text) => Ok(text),
                None => Err(cat3("[Errno 2] No such file or directory: '", path, "'")),
            },
        }
    }

    fn renderer(&mut self, text: &str) -> (r: Result<String, String>) {
        proof {
            self.trace@ = self.trace@.push(Call::Renderer(text@));
        }
        Ok(self.renderer.clone())
    }

    fn render(&mut self, text: &str, params: &Object) -> (r: Result<String, String>) {
        proof {
            self.trace@ = self.trace@.push(Call::Render { text: text@, params: params@ });
        }
        match lookup_text(&self.rendered, text) {
            Some(out) => Ok(out),
            None => Ok(text.to_owned()),
        }
    }

    fn instance_id(&mut self) -> (r: String) {
        self.record("get_instance_id", Ghost(Call::InstanceId));
        self.instance_id.clone()
    }

    fn make_header(&mut self) -> (r: String) {
        self.record("make_header", Ghost(Call::MakeHeader));
        self.header.clone()
    }

    fn is_exe(&mut self, path: &str) -> (r: bool) {
        self.record(cat2("is_exe ", path).as_str(), Ghost(Call::IsExe(path@)));
        has_text(&self.exes, path)
    }

    fn install_packages(&mut self, packages: &Vec<String>) -> (r: Result<(), String>) {
        let call = cat2("install_packages ", py_list(packages).as_str());
        self.record(call.as_str(), Ghost(Call::InstallPackages(texts(packages@))));
        fail_as_scripted(&self.errors, call.as_str())
    }

    fn subp(&mut self, argv: &Vec<String>) -> (r: Result<(), CmdError>) {
        let call = cat2("subp ", join_with(argv, " ").as_str());
        self.record(call.as_str(), Ghost(Call::Subp(texts(argv@))));
        match fail_as_scripted(&self.errors, call.as_str()) {
            Ok(()) => Ok(()),
            Err(e) => Err(
                CmdError { command: py_list(argv), exit_code: Some(1), stdout: String::new(), stderr: e },
            ),
        }
    }

    fn readurl(&mut self, url: &str, retries: i64) -> (r: Result<String, String>) {
        let call = cat4("readurl ", url, " retries=", dec_int_of(retries as i128).as_str());
        self.record(call.as_str(), Ghost(Call::ReadUrl { url: url@, retries: retries as int }));
        match fail_as_scripted(&self.errors, call.as_str()) {
            Err(e) => Err(e),
            Ok(()) => match lookup_text(&self.urls, url) {
                Some(body) => Ok(body),
                None => Err(cat2("Unable to read ", url)),
            },
        }
    }

    fn tempdir(&mut self) -> (r: Result<String, String>) {
        self.record("tempdir", Ghost(Call::TempDir));
        match fail_as_scripted(&self.errors, "tempdir") {
            Err(e) => Err(e),
            Ok(()) => Ok(self.tmpdir.clone()),
        }
    }

    fn sym_link(&mut self, source: &str, link: &str) -> (r: Result<(), String>) {
        let call = cat4("sym_link ", source, " ", link);
        self.record(call.as_str(), Ghost(Call::SymLink { source: source@, link: link@ }));
        fail_as_scripted(&self.errors, call.as_str())
    }

    fn report(&mut self, level: Level, source: &str, text: &str) {
        broadcast use texts_push;
        self.log.push(log_line_of(level, source, text));
        proof {
            self.trace@ = self.trace@.push(Call::Report { level, source: source@, text: text@ });
        }
    }
}

}
