//! What configuring apt asks of the machine.

use vstd::prelude::*;

use crate::cc::package_update_upgrade_install::host::{
    copy_option, copy_steps, install_result, steps_of, steps_result, InstallPlan, InstallSpec, Step as PackageStep,
    StepSpec as PackageSpec,
};
use crate::cc::{fail_as_scripted, failure, has_key, list_table, lookup_list, text_result, unit_result};
use crate::machine::{answers, asked, log_line, log_line_of, lookup, lookup_text, text_table, Level, Machine};
use crate::number::{dec, dec_of, octal4, octal4_of};
use crate::text::{cat2, cat4, copy_strings, has_text, join, join_with, opt_text, same, texts, texts_push};
use crate::value::{Object, Val};

verus! {

/// A change to a file.
#[derive(Debug, Clone, PartialEq, Eq)]
pub enum FileAction {
    Write {
        path: String,
        content: String,
        /// Nothing leaves the usual mode.
        mode: Option<u32>,
    },
    Remove(String),
}

pub enum FileSpec {
    Write { path: Seq<char>, content: Seq<char>, mode: Option<u32> },
    Remove(Seq<char>),
}

impl View for FileAction {
    type V = FileSpec;

    open spec fn view(&self) -> FileSpec {
        match self {
            FileAction::Write { path, content, mode } => FileSpec::Write {
                path: path@,
                content: content@,
                mode: *mode,
            },
            FileAction::Remove(path) => FileSpec::Remove(path@),
        }
    }
}

/// Something to do for the keys and the sources.
#[derive(Debug, Clone, PartialEq, Eq)]
#[allow(inconsistent_fields)]
pub enum Step {
    /// A key in its binary form.
    WriteKey { path: String, content: Vec<u8> },
    WriteSource { path: String, content: String, append: bool },
    AddAptRepository { source: String },
    UpdatePackageSources,
}

#[allow(inconsistent_fields)]
pub enum StepSpec {
    WriteKey { path: Seq<char>, content: Seq<u8> },
    WriteSource { path: Seq<char>, content: Seq<char>, append: bool },
    AddAptRepository { source: Seq<char> },
    UpdatePackageSources,
}

impl View for Step {
    type V = StepSpec;

    open spec fn view(&self) -> StepSpec {
        match self {
            Step::WriteKey { path, content } => StepSpec::WriteKey { path: path@, content: content@ },
            Step::WriteSource { path, content, append } => StepSpec::WriteSource {
                path: path@,
                content: content@,
                append: *append,
            },
            Step::AddAptRepository { source } => StepSpec::AddAptRepository { source: source@ },
            Step::UpdatePackageSources => StepSpec::UpdatePackageSources,
        }
    }
}

pub open spec fn bytes_result(r: Result<Vec<u8>, String>) -> Result<Seq<u8>, Seq<char>> {
    match r {
        Ok(v) => Ok(v@),
        Err(e) => Err(e@),
    }
}

pub open spec fn fetch_result(r: Result<Option<String>, String>) -> Result<Option<Seq<char>>, Seq<char>> {
    match r {
        Ok(found) => Ok(opt_text(found)),
        Err(e) => Err(e@),
    }
}

pub open spec fn object_result(r: Result<Object, String>) -> Result<Seq<(Seq<char>, Val)>, Seq<char>> {
    match r {
        Ok(o) => Ok(o@),
        Err(e) => Err(e@),
    }
}

pub open spec fn opt_texts(o: Option<Vec<String>>) -> Option<Seq<Seq<char>>> {
    match o {
        Some(v) => Some(texts(v@)),
        None => None,
    }
}

/// A question to the machine.
pub enum Call {
    DrawName,
    Which(Seq<char>),
    Exists(Seq<char>),
    ReadFile(Seq<char>),
    TemplatesDir,
    TemplateExists(Seq<char>),
    LoadTemplate(Seq<char>),
    Render { text: Seq<char>, params: Seq<(Seq<char>, Val)> },
    OpenKeyring,
    Dearmor(Seq<char>),
    GetKey { keyid: Seq<char>, keyserver: Seq<char> },
    Resolve(Seq<char>),
    IsAddress(Seq<char>),
    KnownRedirects,
    KeepRedirects(Seq<Seq<char>>),
    Datasource(Seq<char>),
    Codename,
    Architecture,
    Fqdn,
    Snappy,
    Dump,
    Packages,
    PlanInstall(Seq<Seq<char>>),
    PlanUpdate,
    StepDone(Seq<char>),
    RunPackageStep(PackageSpec),
    EnsureParent(Seq<char>),
    Write { path: Seq<char>, content: Seq<u8>, mode: u32 },
    Append { path: Seq<char>, content: Seq<u8>, mode: u32 },
    Feed { argv: Seq<Seq<char>>, data: Seq<u8> },
    Subp(Seq<Seq<char>>),
    ListDir(Seq<char>),
    RemoveFile(Seq<char>),
    Rename { from: Seq<char>, to: Seq<char> },
    Report { level: Level, source: Seq<char>, text: Seq<char> },
}

/// The machine's answer to a question.
pub enum Answer {
    Nothing,
    Done(Result<(), Seq<char>>),
    Flag(bool),
    Text(Seq<char>),
    Found(Option<Seq<char>>),
    Names(Seq<Seq<char>>),
    Known(Option<Seq<Seq<char>>>),
    Read(Result<Seq<char>, Seq<char>>),
    Bytes(Result<Seq<u8>, Seq<char>>),
    Fetched(Result<Option<Seq<char>>, Seq<char>>),
    Steps(Result<Seq<PackageSpec>, Seq<char>>),
    Install(Result<InstallSpec, Seq<char>>),
    Mirrors(Result<Seq<(Seq<char>, Val)>, Seq<char>>),
}

/// Everything that configuring apt asks of the machine.
///
/// A machine is a state and a rule: [`Host::reply`] gives, for a state and a
/// call, the next state and the answer.
pub trait Host: Sized {
    type World;

    spec fn machine(&self) -> Machine<Call, Self::World>;

    spec fn reply(world: Self::World, call: Call) -> (Self::World, Answer);

    /// A name of eight letters and digits, drawn by chance.
    fn draw_name(&mut self) -> (r: String)
        ensures
            answers(
                old(self).machine(),
                Call::DrawName,
                Self::reply(old(self).machine().world, Call::DrawName),
                final(self).machine(),
                Answer::Text(r@),
            ),
    ;

    /// Whether a command can be found.
    fn which(&mut self, command: &str) -> (r: bool)
        ensures
            answers(
                old(self).machine(),
                Call::Which(command@),
                Self::reply(old(self).machine().world, Call::Which(command@)),
                final(self).machine(),
                Answer::Flag(r),
            ),
    ;

    /// Whether a file exists.
    fn path_exists(&mut self, path: &str) -> (r: bool)
        ensures
            answers(
                old(self).machine(),
                Call::Exists(path@),
                Self::reply(old(self).machine().world, Call::Exists(path@)),
                final(self).machine(),
                Answer::Flag(r),
            ),
    ;

    /// The text of a file, if it can be read.
    fn read_file(&mut self, path: &str) -> (r: Option<String>)
        ensures
            answers(
                old(self).machine(),
                Call::ReadFile(path@),
                Self::reply(old(self).machine().world, Call::ReadFile(path@)),
                final(self).machine(),
                Answer::Found(opt_text(r)),
            ),
    ;

    /// The directory that templates are in.
    fn templates_dir(&mut self) -> (r: String)
        ensures
            answers(
                old(self).machine(),
                Call::TemplatesDir,
                Self::reply(old(self).machine().world, Call::TemplatesDir),
                final(self).machine(),
                Answer::Text(r@),
            ),
    ;

    /// Whether there is a template of a name.
    fn template_exists(&mut self, name: &str) -> (r: bool)
        ensures
            answers(
                old(self).machine(),
                Call::TemplateExists(name@),
                Self::reply(old(self).machine().world, Call::TemplateExists(name@)),
                final(self).machine(),
                Answer::Flag(r),
            ),
    ;

    /// The text of a template, if it can be read.
    fn load_template(&mut self, name: &str) -> (r: Option<String>)
        ensures
            answers(
                old(self).machine(),
                Call::LoadTemplate(name@),
                Self::reply(old(self).machine().world, Call::LoadTemplate(name@)),
                final(self).machine(),
                Answer::Found(opt_text(r)),
            ),
    ;

    /// A template filled in with parameters.
    fn render(&mut self, text: &str, params: &Object) -> (r: Result<String, String>)
        ensures
            answers(
                old(self).machine(),
                Call::Render { text: text@, params: params@ },
                Self::reply(old(self).machine().world, Call::Render { text: text@, params: params@ }),
                final(self).machine(),
                Answer::Read(text_result(r)),
            ),
    ;

    /// Makes ready for handling keys.
    fn open_keyring(&mut self) -> (r: Result<(), String>)
        ensures
            answers(
                old(self).machine(),
                Call::OpenKeyring,
                Self::reply(old(self).machine().world, Call::OpenKeyring),
                final(self).machine(),
                Answer::Done(unit_result(r)),
            ),
    ;

    /// A key in its binary form.
    fn dearmor(&mut self, key: &str) -> (r: Result<Vec<u8>, String>)
        ensures
            answers(
                old(self).machine(),
                Call::Dearmor(key@),
                Self::reply(old(self).machine().world, Call::Dearmor(key@)),
                final(self).machine(),
                Answer::Bytes(bytes_result(r)),
            ),
    ;

    /// A key fetched from a key server.
    fn getkeybyid(&mut self, keyid: &str, keyserver: &str) -> (r: Result<Option<String>, String>)
        ensures
            answers(
                old(self).machine(),
                Call::GetKey { keyid: keyid@, keyserver: keyserver@ },
                Self::reply(old(self).machine().world, Call::GetKey { keyid: keyid@, keyserver: keyserver@ }),
                final(self).machine(),
                Answer::Fetched(fetch_result(r)),
            ),
    ;

    /// The addresses of a name.
    fn resolve(&mut self, name: &str) -> (r: Vec<String>)
        ensures
            answers(
                old(self).machine(),
                Call::Resolve(name@),
                Self::reply(old(self).machine().world, Call::Resolve(name@)),
                final(self).machine(),
                Answer::Names(texts(r@)),
            ),
    ;

    /// Whether a name is an address.
    fn is_address(&mut self, name: &str) -> (r: bool)
        ensures
            answers(
                old(self).machine(),
                Call::IsAddress(name@),
                Self::reply(old(self).machine().world, Call::IsAddress(name@)),
                final(self).machine(),
                Answer::Flag(r),
            ),
    ;

    /// The addresses that names which cannot exist are given, where that was found out
    /// before.
    fn known_redirects(&mut self) -> (r: Option<Vec<String>>)
        ensures
            answers(
                old(self).machine(),
                Call::KnownRedirects,
                Self::reply(old(self).machine().world, Call::KnownRedirects),
                final(self).machine(),
                Answer::Known(opt_texts(r)),
            ),
    ;

    /// Keeps the addresses that names which cannot exist are given.
    fn keep_redirects(&mut self, addresses: &Vec<String>)
        ensures
            answers(
                old(self).machine(),
                Call::KeepRedirects(texts(addresses@)),
                Self::reply(old(self).machine().world, Call::KeepRedirects(texts(addresses@))),
                final(self).machine(),
                Answer::Nothing,
            ),
    ;

    /// The mirrors that the data source names for an architecture.
    fn datasource_mirrors(&mut self, arch: &str) -> (r: Result<Object, String>)
        ensures
            answers(
                old(self).machine(),
                Call::Datasource(arch@),
                Self::reply(old(self).machine().world, Call::Datasource(arch@)),
                final(self).machine(),
                Answer::Mirrors(object_result(r)),
            ),
    ;

    /// The release's code name.
    fn codename(&mut self) -> (r: Option<String>)
        ensures
            answers(
                old(self).machine(),
                Call::Codename,
                Self::reply(old(self).machine().world, Call::Codename),
                final(self).machine(),
                Answer::Found(opt_text(r)),
            ),
    ;

    /// The architecture of packages.
    fn architecture(&mut self) -> (r: Result<String, String>)
        ensures
            answers(
                old(self).machine(),
                Call::Architecture,
                Self::reply(old(self).machine().world, Call::Architecture),
                final(self).machine(),
                Answer::Read(text_result(r)),
            ),
    ;

    /// The machine's full name.
    fn fqdn(&mut self) -> (r: String)
        ensures
            answers(
                old(self).machine(),
                Call::Fqdn,
                Self::reply(old(self).machine().world, Call::Fqdn),
                final(self).machine(),
                Answer::Text(r@),
            ),
    ;

    /// Whether the system is a snap system.
    fn is_snappy(&mut self) -> (r: bool)
        ensures
            answers(
                old(self).machine(),
                Call::Snappy,
                Self::reply(old(self).machine().world, Call::Snappy),
                final(self).machine(),
                Answer::Flag(r),
            ),
    ;

    /// What apt prints of its configuration.
    fn apt_config_dump(&mut self) -> (r: Option<String>)
        ensures
            answers(
                old(self).machine(),
                Call::Dump,
                Self::reply(old(self).machine().world, Call::Dump),
                final(self).machine(),
                Answer::Found(opt_text(r)),
            ),
    ;

    /// What is printed of the packages.
    fn dpkg_list(&mut self) -> (r: Result<String, String>)
        ensures
            answers(
                old(self).machine(),
                Call::Packages,
                Self::reply(old(self).machine().world, Call::Packages),
                final(self).machine(),
                Answer::Read(text_result(r)),
            ),
    ;

    /// The commands that install packages, as the distribution does it.
    fn plan_install(&mut self, names: &Vec<String>) -> (r: Result<InstallPlan, String>)
        ensures
            answers(
                old(self).machine(),
                Call::PlanInstall(texts(names@)),
                Self::reply(old(self).machine().world, Call::PlanInstall(texts(names@))),
                final(self).machine(),
                Answer::Install(install_result(r)),
            ),
    ;

    /// The commands that bring the lists of packages up to date, whether or not that was
    /// done before.
    fn plan_update(&mut self) -> (r: Result<Vec<PackageStep>, String>)
        ensures
            answers(
                old(self).machine(),
                Call::PlanUpdate,
                Self::reply(old(self).machine().world, Call::PlanUpdate),
                final(self).machine(),
                Answer::Steps(steps_result(r)),
            ),
    ;

    /// Whether the command that is run once only under a name was run.
    fn step_done(&mut self, name: &str) -> (r: bool)
        ensures
            answers(
                old(self).machine(),
                Call::StepDone(name@),
                Self::reply(old(self).machine().world, Call::StepDone(name@)),
                final(self).machine(),
                Answer::Flag(r),
            ),
    ;

    /// Runs one of the commands for packages. One that is run once only counts as run
    /// from then on.
    fn run_package_step(&mut self, step: &PackageStep) -> (r: Result<(), String>)
        ensures
            answers(
                old(self).machine(),
                Call::RunPackageStep(step@),
                Self::reply(old(self).machine().world, Call::RunPackageStep(step@)),
                final(self).machine(),
                Answer::Done(unit_result(r)),
            ),
    ;

    /// Makes the directory that a file stands in, where it is missing.
    fn ensure_parent(&mut self, path: &str) -> (r: Result<(), String>)
        ensures
            answers(
                old(self).machine(),
                Call::EnsureParent(path@),
                Self::reply(old(self).machine().world, Call::EnsureParent(path@)),
                final(self).machine(),
                Answer::Done(unit_result(r)),
            ),
    ;

    /// Writes a file, in place of what is there.
    fn write_file(&mut self, path: &str, content: &Vec<u8>, mode: u32) -> (r: Result<(), String>)
        ensures
            answers(
                old(self).machine(),
                Call::Write { path: path@, content: content@, mode },
                Self::reply(old(self).machine().world, Call::Write { path: path@, content: content@, mode }),
                final(self).machine(),
                Answer::Done(unit_result(r)),
            ),
    ;

    /// Writes behind what a file holds.
    fn append_file(&mut self, path: &str, content: &Vec<u8>, mode: u32) -> (r: Result<(), String>)
        ensures
            answers(
                old(self).machine(),
                Call::Append { path: path@, content: content@, mode },
                Self::reply(old(self).machine().world, Call::Append { path: path@, content: content@, mode }),
                final(self).machine(),
                Answer::Done(unit_result(r)),
            ),
    ;

    /// Runs a command that reads some bytes.
    fn feed(&mut self, argv: &Vec<String>, data: &Vec<u8>) -> (r: Result<(), String>)
        ensures
            answers(
                old(self).machine(),
                Call::Feed { argv: texts(argv@), data: data@ },
                Self::reply(old(self).machine().world, Call::Feed { argv: texts(argv@), data: data@ }),
                final(self).machine(),
                Answer::Done(unit_result(r)),
            ),
    ;

    /// Runs a command.
    fn subp(&mut self, argv: &Vec<String>) -> (r: Result<(), String>)
        ensures
            answers(
                old(self).machine(),
                Call::Subp(texts(argv@)),
                Self::reply(old(self).machine().world, Call::Subp(texts(argv@))),
                final(self).machine(),
                Answer::Done(unit_result(r)),
            ),
    ;

    /// The names in a directory.
    fn list_dir(&mut self, path: &str) -> (r: Vec<String>)
        ensures
            answers(
                old(self).machine(),
                Call::ListDir(path@),
                Self::reply(old(self).machine().world, Call::ListDir(path@)),
                final(self).machine(),
                Answer::Names(texts(r@)),
            ),
    ;

    /// Removes a file. That it is not there is no failure.
    fn remove_file(&mut self, path: &str) -> (r: Result<(), String>)
        ensures
            answers(
                old(self).machine(),
                Call::RemoveFile(path@),
                Self::reply(old(self).machine().world, Call::RemoveFile(path@)),
                final(self).machine(),
                Answer::Done(unit_result(r)),
            ),
    ;

    /// Renames a file.
    fn rename(&mut self, from: &str, to: &str) -> (r: Result<(), String>)
        ensures
            answers(
                old(self).machine(),
                Call::Rename { from: from@, to: to@ },
                Self::reply(old(self).machine().world, Call::Rename { from: from@, to: to@ }),
                final(self).machine(),
                Answer::Done(unit_result(r)),
            ),
    ;

    /// Writes a line to the log, under the name of what it comes from.
    fn report(&mut self, level: Level, source: &str, text: &str)
        ensures
            final(self).machine() == asked(
                old(self).machine(),
                Call::Report { level, source: source@, text: text@ },
                Self::reply(old(self).machine().world, Call::Report { level, source: source@, text: text@ }).0,
            ),
    ;
}

/// A machine that the module works on.
pub type Site<H> = Machine<Call, <H as Host>::World>;

pub open spec fn ask_report<H: Host>(m: Site<H>, level: Level, source: Seq<char>, text: Seq<char>) -> Site<H> {
    let call = Call::Report { level, source, text };
    asked(m, call, H::reply(m.world, call).0)
}

/// The name under which the module writes to the log.
pub const SOURCE: &'static str = "cc_apt_configure.py";

/// A line that only helps to follow what happens.
pub open spec fn logged<H: Host>(m: Site<H>, text: Seq<char>) -> Site<H> {
    ask_report::<H>(m, Level::Debug, SOURCE@, text)
}

pub fn log_debug<H: Host>(host: &mut H, text: &str)
    ensures
        final(host).machine() == logged::<H>(old(host).machine(), text@),
{
    host.report(Level::Debug, SOURCE, text);
}

/// A line on what happens.
pub open spec fn informed<H: Host>(m: Site<H>, text: Seq<char>) -> Site<H> {
    ask_report::<H>(m, Level::Info, SOURCE@, text)
}

pub fn log_info<H: Host>(host: &mut H, text: &str)
    ensures
        final(host).machine() == informed::<H>(old(host).machine(), text@),
{
    host.report(Level::Info, SOURCE, text);
}

/// A warning.
pub open spec fn warned<H: Host>(m: Site<H>, text: Seq<char>) -> Site<H> {
    ask_report::<H>(m, Level::Warning, SOURCE@, text)
}

pub fn log_warn<H: Host>(host: &mut H, text: &str)
    ensures
        final(host).machine() == warned::<H>(old(host).machine(), text@),
{
    host.report(Level::Warning, SOURCE, text);
}

/// A line of the general tools that only helps to follow what happens.
pub open spec fn tool_logged<H: Host>(m: Site<H>, text: Seq<char>) -> Site<H> {
    ask_report::<H>(m, Level::Debug, "util.py"@, text)
}

pub fn log_tool<H: Host>(host: &mut H, text: &str)
    ensures
        final(host).machine() == tool_logged::<H>(old(host).machine(), text@),
{
    host.report(Level::Debug, "util.py", text);
}

pub open spec fn ask_draw_name<H: Host>(m: Site<H>) -> (Site<H>, Seq<char>) {
    let (w, a) = H::reply(m.world, Call::DrawName);
    (asked(m, Call::DrawName, w), a->Text_0)
}

pub open spec fn ask_which<H: Host>(m: Site<H>, command: Seq<char>) -> (Site<H>, bool) {
    let (w, a) = H::reply(m.world, Call::Which(command));
    (asked(m, Call::Which(command), w), a->Flag_0)
}

pub open spec fn ask_path_exists<H: Host>(m: Site<H>, path: Seq<char>) -> (Site<H>, bool) {
    let (w, a) = H::reply(m.world, Call::Exists(path));
    (asked(m, Call::Exists(path), w), a->Flag_0)
}

pub open spec fn ask_read_file<H: Host>(m: Site<H>, path: Seq<char>) -> (Site<H>, Option<Seq<char>>) {
    let (w, a) = H::reply(m.world, Call::ReadFile(path));
    (asked(m, Call::ReadFile(path), w), a->Found_0)
}

pub open spec fn ask_load_template<H: Host>(m: Site<H>, name: Seq<char>) -> (Site<H>, Option<Seq<char>>) {
    let (w, a) = H::reply(m.world, Call::LoadTemplate(name));
    (asked(m, Call::LoadTemplate(name), w), a->Found_0)
}

pub open spec fn ask_render<H: Host>(m: Site<H>, text: Seq<char>, params: Seq<(Seq<char>, Val)>) -> (Site<H>, Result<Seq<char>, Seq<char>>) {
    let (w, a) = H::reply(m.world, Call::Render { text, params });
    (asked(m, Call::Render { text, params }, w), a->Read_0)
}

pub open spec fn ask_open_keyring<H: Host>(m: Site<H>) -> (Site<H>, Result<(), Seq<char>>) {
    let (w, a) = H::reply(m.world, Call::OpenKeyring);
    (asked(m, Call::OpenKeyring, w), a->Done_0)
}

pub open spec fn ask_dearmor<H: Host>(m: Site<H>, key: Seq<char>) -> (Site<H>, Result<Seq<u8>, Seq<char>>) {
    let (w, a) = H::reply(m.world, Call::Dearmor(key));
    (asked(m, Call::Dearmor(key), w), a->Bytes_0)
}

pub open spec fn ask_getkeybyid<H: Host>(m: Site<H>, keyid: Seq<char>, keyserver: Seq<char>) -> (Site<H>, Result<Option<Seq<char>>, Seq<char>>) {
    let (w, a) = H::reply(m.world, Call::GetKey { keyid, keyserver });
    (asked(m, Call::GetKey { keyid, keyserver }, w), a->Fetched_0)
}

pub open spec fn ask_resolve<H: Host>(m: Site<H>, name: Seq<char>) -> (Site<H>, Seq<Seq<char>>) {
    let (w, a) = H::reply(m.world, Call::Resolve(name));
    (asked(m, Call::Resolve(name), w), a->Names_0)
}

pub open spec fn ask_is_address<H: Host>(m: Site<H>, name: Seq<char>) -> (Site<H>, bool) {
    let (w, a) = H::reply(m.world, Call::IsAddress(name));
    (asked(m, Call::IsAddress(name), w), a->Flag_0)
}

pub open spec fn ask_datasource_mirrors<H: Host>(m: Site<H>, arch: Seq<char>) -> (Site<H>, Result<Seq<(Seq<char>, Val)>, Seq<char>>) {
    let (w, a) = H::reply(m.world, Call::Datasource(arch));
    (asked(m, Call::Datasource(arch), w), a->Mirrors_0)
}

pub open spec fn ask_codename<H: Host>(m: Site<H>) -> (Site<H>, Option<Seq<char>>) {
    let (w, a) = H::reply(m.world, Call::Codename);
    (asked(m, Call::Codename, w), a->Found_0)
}

pub open spec fn ask_architecture<H: Host>(m: Site<H>) -> (Site<H>, Result<Seq<char>, Seq<char>>) {
    let (w, a) = H::reply(m.world, Call::Architecture);
    (asked(m, Call::Architecture, w), a->Read_0)
}

pub open spec fn ask_is_snappy<H: Host>(m: Site<H>) -> (Site<H>, bool) {
    let (w, a) = H::reply(m.world, Call::Snappy);
    (asked(m, Call::Snappy, w), a->Flag_0)
}

pub open spec fn ask_apt_config_dump<H: Host>(m: Site<H>) -> (Site<H>, Option<Seq<char>>) {
    let (w, a) = H::reply(m.world, Call::Dump);
    (asked(m, Call::Dump, w), a->Found_0)
}

pub open spec fn ask_dpkg_list<H: Host>(m: Site<H>) -> (Site<H>, Result<Seq<char>, Seq<char>>) {
    let (w, a) = H::reply(m.world, Call::Packages);
    (asked(m, Call::Packages, w), a->Read_0)
}

pub open spec fn ask_plan_install<H: Host>(m: Site<H>, names: Seq<Seq<char>>) -> (Site<H>, Result<InstallSpec, Seq<char>>) {
    let (w, a) = H::reply(m.world, Call::PlanInstall(names));
    (asked(m, Call::PlanInstall(names), w), a->Install_0)
}

pub open spec fn ask_feed<H: Host>(m: Site<H>, argv: Seq<Seq<char>>, data: Seq<u8>) -> (Site<H>, Result<(), Seq<char>>) {
    let (w, a) = H::reply(m.world, Call::Feed { argv, data });
    (asked(m, Call::Feed { argv, data }, w), a->Done_0)
}

pub open spec fn ask_subp<H: Host>(m: Site<H>, argv: Seq<Seq<char>>) -> (Site<H>, Result<(), Seq<char>>) {
    let (w, a) = H::reply(m.world, Call::Subp(argv));
    (asked(m, Call::Subp(argv), w), a->Done_0)
}

pub open spec fn ask_list_dir<H: Host>(m: Site<H>, path: Seq<char>) -> (Site<H>, Seq<Seq<char>>) {
    let (w, a) = H::reply(m.world, Call::ListDir(path));
    (asked(m, Call::ListDir(path), w), a->Names_0)
}

pub open spec fn ask_templates_dir<H: Host>(m: Site<H>) -> (Site<H>, Seq<char>) {
    let (w, a) = H::reply(m.world, Call::TemplatesDir);
    (asked(m, Call::TemplatesDir, w), a->Text_0)
}

pub open spec fn ask_template_exists<H: Host>(m: Site<H>, name: Seq<char>) -> (Site<H>, bool) {
    let (w, a) = H::reply(m.world, Call::TemplateExists(name));
    (asked(m, Call::TemplateExists(name), w), a->Flag_0)
}

pub open spec fn ask_known_redirects<H: Host>(m: Site<H>) -> (Site<H>, Option<Seq<Seq<char>>>) {
    let (w, a) = H::reply(m.world, Call::KnownRedirects);
    (asked(m, Call::KnownRedirects, w), a->Known_0)
}

pub open spec fn ask_keep_redirects<H: Host>(m: Site<H>, addresses: Seq<Seq<char>>) -> Site<H> {
    let call = Call::KeepRedirects(addresses);
    asked(m, call, H::reply(m.world, call).0)
}

pub open spec fn ask_fqdn<H: Host>(m: Site<H>) -> (Site<H>, Seq<char>) {
    let (w, a) = H::reply(m.world, Call::Fqdn);
    (asked(m, Call::Fqdn, w), a->Text_0)
}

pub open spec fn ask_plan_update<H: Host>(m: Site<H>) -> (Site<H>, Result<Seq<PackageSpec>, Seq<char>>) {
    let (w, a) = H::reply(m.world, Call::PlanUpdate);
    (asked(m, Call::PlanUpdate, w), a->Steps_0)
}

pub open spec fn ask_step_done<H: Host>(m: Site<H>, name: Seq<char>) -> (Site<H>, bool) {
    let (w, a) = H::reply(m.world, Call::StepDone(name));
    (asked(m, Call::StepDone(name), w), a->Flag_0)
}

pub open spec fn ask_run_package_step<H: Host>(m: Site<H>, step: PackageSpec) -> (Site<H>, Result<(), Seq<char>>) {
    let (w, a) = H::reply(m.world, Call::RunPackageStep(step));
    (asked(m, Call::RunPackageStep(step), w), a->Done_0)
}

pub open spec fn ask_ensure_parent<H: Host>(m: Site<H>, path: Seq<char>) -> (Site<H>, Result<(), Seq<char>>) {
    let (w, a) = H::reply(m.world, Call::EnsureParent(path));
    (asked(m, Call::EnsureParent(path), w), a->Done_0)
}

pub open spec fn ask_write_file<H: Host>(m: Site<H>, path: Seq<char>, content: Seq<u8>, mode: u32) -> (Site<H>, Result<(), Seq<char>>) {
    let (w, a) = H::reply(m.world, Call::Write { path, content, mode });
    (asked(m, Call::Write { path, content, mode }, w), a->Done_0)
}

pub open spec fn ask_append_file<H: Host>(m: Site<H>, path: Seq<char>, content: Seq<u8>, mode: u32) -> (Site<H>, Result<(), Seq<char>>) {
    let (w, a) = H::reply(m.world, Call::Append { path, content, mode });
    (asked(m, Call::Append { path, content, mode }, w), a->Done_0)
}

pub open spec fn ask_remove_file<H: Host>(m: Site<H>, path: Seq<char>) -> (Site<H>, Result<(), Seq<char>>) {
    let (w, a) = H::reply(m.world, Call::RemoveFile(path));
    (asked(m, Call::RemoveFile(path), w), a->Done_0)
}

pub open spec fn ask_rename<H: Host>(m: Site<H>, from: Seq<char>, to: Seq<char>) -> (Site<H>, Result<(), Seq<char>>) {
    let (w, a) = H::reply(m.world, Call::Rename { from, to });
    (asked(m, Call::Rename { from, to }, w), a->Done_0)
}

// ---------------------------------------------------------------------------
// A scripted machine

/// A table from texts to bytes.
pub open spec fn byte_table(t: Seq<(String, Vec<u8>)>) -> Seq<(Seq<char>, Seq<u8>)> {
    Seq::new(t.len(), |i: int| (t[i].0@, t[i].1@))
}

pub fn lookup_bytes(table: &Vec<(String, Vec<u8>)>, key: &str) -> (r: Option<Vec<u8>>)
    ensures
        match r {
            Some(v) => lookup(byte_table(table@), key@) == Some(v@),
            None => lookup(byte_table(table@), key@) is None,
        },
{
    let ghost all = byte_table(table@);
    let mut i: usize = 0;
    assert(all.skip(0) =~= all);
    while i < table.len()
        invariant
            i <= table@.len(),
            all == byte_table(table@),
            lookup(all.skip(i as int), key@) == lookup(all, key@),
        decreases table.len() - i,
    {
        assert(all.skip(i as int)[0] == all[i as int]);
        assert(all.skip(i as int).skip(1) =~= all.skip(i + 1));
        if same(table[i].0.as_str(), key) {
            let mut out: Vec<u8> = Vec::new();
            let bytes = &table[i].1;
            let mut k: usize = 0;
            while k < bytes.len()
                invariant
                    k <= bytes@.len(),
                    out@ == bytes@.take(k as int),
                decreases bytes.len() - k,
            {
                out.push(bytes[k]);
                k += 1;
            }
            assert(out@ =~= bytes@);
            return Some(out);
        }
        i += 1;
    }
    None
}

/// A machine whose every answer is set up front, and which writes down what it
/// is asked.
pub struct Fixture {
    /// Files that are there, with what is in them.
    pub files: Vec<(String, String)>,
    /// The directory that templates are in.
    pub templates_dir: String,
    /// Templates by name.
    pub templates: Vec<(String, String)>,
    /// What templates are rendered to; one that is not here stays as it is.
    pub rendered: Vec<(String, String)>,
    /// Commands that can be found.
    pub commands: Vec<String>,
    /// Keys that have a binary form.
    pub keys: Vec<(String, Vec<u8>)>,
    /// The key that a key server gives.
    pub fetched: Option<String>,
    /// The addresses of names.
    pub names: Vec<(String, Vec<String>)>,
    /// Names that are addresses.
    pub addresses: Vec<String>,
    /// The addresses that names which cannot exist are given, once that is known.
    pub redirected: Option<Vec<String>>,
    /// The mirrors that the data source names.
    pub datasource: Object,
    /// The release's code name.
    pub release: Option<String>,
    pub arch: String,
    /// The machine's full name.
    pub fqdn: String,
    pub snappy: bool,
    /// What apt prints of its configuration.
    pub dump: Option<String>,
    /// What is printed of the packages.
    pub packages: String,
    /// The names in directories.
    pub dirs: Vec<(String, Vec<String>)>,
    /// Calls that fail, by what is written down of them, and the message.
    pub errors: Vec<(String, String)>,
    /// The number of the next name that is drawn.
    pub next_key: u64,
    /// The commands that bring the lists of packages up to date.
    pub update: Vec<PackageStep>,
    /// The commands that install packages.
    pub install: Vec<PackageStep>,
    /// What could not be planned of installing.
    pub not_installed: Option<String>,
    /// The names of commands that are run once only and were run.
    pub done: Vec<String>,
    /// What was asked, in order.
    pub calls: Vec<String>,
    /// The lines of the log, in order.
    pub log: Vec<String>,
    /// The questions themselves.
    pub trace: Ghost<Seq<Call>>,
}

/// The script of a [`Fixture`] and what it wrote down.
pub struct Script {
    pub files: Seq<(Seq<char>, Seq<char>)>,
    pub templates_dir: Seq<char>,
    pub templates: Seq<(Seq<char>, Seq<char>)>,
    pub rendered: Seq<(Seq<char>, Seq<char>)>,
    pub commands: Seq<Seq<char>>,
    pub keys: Seq<(Seq<char>, Seq<u8>)>,
    pub fetched: Option<Seq<char>>,
    pub names: Seq<(Seq<char>, Seq<Seq<char>>)>,
    pub addresses: Seq<Seq<char>>,
    pub redirected: Option<Seq<Seq<char>>>,
    pub datasource: Seq<(Seq<char>, Val)>,
    pub release: Option<Seq<char>>,
    pub arch: Seq<char>,
    pub fqdn: Seq<char>,
    pub snappy: bool,
    pub dump: Option<Seq<char>>,
    pub packages: Seq<char>,
    pub dirs: Seq<(Seq<char>, Seq<Seq<char>>)>,
    pub errors: Seq<(Seq<char>, Seq<char>)>,
    pub next_key: nat,
    pub update: Seq<PackageSpec>,
    pub install: Seq<PackageSpec>,
    pub not_installed: Option<Seq<char>>,
    pub done: Seq<Seq<char>>,
    pub calls: Seq<Seq<char>>,
    pub log: Seq<Seq<char>>,
}

/// What a [`Fixture`] writes down when it is asked something.
pub open spec fn line(call: Call) -> Option<Seq<char>> {
    match call {
        Call::Report { level, source, text } => None,
        Call::LoadTemplate(name) => Some("load_template "@ + name),
        Call::OpenKeyring => Some("keyring"@),
        Call::Dearmor(key) => Some("dearmor "@ + key),
        Call::GetKey { keyid, keyserver } => Some("getkeybyid "@ + keyid + " "@ + keyserver),
        Call::PlanInstall(names) => Some("plan_install "@ + join(names, " "@)),
        Call::PlanUpdate => Some("plan_update"@),
        Call::RunPackageStep(step) => Some("run "@ + join(step.argv, " "@)),
        Call::EnsureParent(path) => Some("ensure_parent "@ + path),
        Call::Write { path, content, mode } => Some("write "@ + path + " "@ + octal4(mode as nat)),
        Call::Append { path, content, mode } => Some("append "@ + path + " "@ + octal4(mode as nat)),
        Call::Feed { argv, data } => Some("feed "@ + join(argv, " "@)),
        Call::Subp(argv) => Some("subp "@ + join(argv, " "@)),
        Call::RemoveFile(path) => Some("remove "@ + path),
        Call::Rename { from, to } => Some("rename "@ + from + " "@ + to),
        _ => None,
    }
}

/// Whether a call is scripted to fail.
pub open spec fn fails(s: Script, call: Call) -> Result<(), Seq<char>> {
    match line(call) {
        Some(text) => failure(s.errors, text),
        None => Ok(()),
    }
}

/// The names that a table has for a key.
pub open spec fn names_for(table: Seq<(Seq<char>, Seq<Seq<char>>)>, key: Seq<char>) -> Seq<Seq<char>> {
    match lookup(table, key) {
        Some(names) => names,
        None => Seq::empty(),
    }
}

fn names_at(table: &Vec<(String, Vec<String>)>, key: &str) -> (r: Vec<String>)
    ensures
        texts(r@) == names_for(list_table(table@), key@),
{
    match lookup_list(table, key) {
        Some(names) => names,
        None => {
            let none: Vec<String> = Vec::new();
            assert(texts(none@) =~= Seq::empty());
            none
        },
    }
}

/// What a script answers.
pub open spec fn script_answer(s: Script, call: Call) -> Answer {
    match call {
        Call::Report { level, source, text } => Answer::Nothing,
        Call::DrawName => Answer::Text("key"@ + dec(s.next_key)),
        Call::PlanInstall(names) => Answer::Install(
            match fails(s, call) {
                Ok(()) => Ok(InstallSpec { steps: s.install, failed: s.not_installed }),
                Err(e) => Err(e),
            },
        ),
        Call::PlanUpdate => Answer::Steps(
            match fails(s, call) {
                Ok(()) => Ok(s.update),
                Err(e) => Err(e),
            },
        ),
        Call::StepDone(name) => Answer::Flag(s.done.contains(name)),
        Call::Which(command) => Answer::Flag(s.commands.contains(command)),
        Call::Exists(path) => Answer::Flag(has_key(s.files, path)),
        Call::ReadFile(path) => Answer::Found(lookup(s.files, path)),
        Call::TemplatesDir => Answer::Text(s.templates_dir),
        Call::TemplateExists(name) => Answer::Flag(has_key(s.templates, name)),
        Call::LoadTemplate(name) => Answer::Found(lookup(s.templates, name)),
        Call::Render { text, params } => Answer::Read(
            Ok(
                match lookup(s.rendered, text) {
                    Some(out) => out,
                    None => text,
                },
            ),
        ),
        Call::Dearmor(key) => Answer::Bytes(
            match lookup(s.keys, key) {
                Some(bytes) => Ok(bytes),
                None => Err("gpg said no"@),
            },
        ),
        Call::GetKey { keyid, keyserver } => Answer::Fetched(
            match fails(s, call) {
                Ok(()) => Ok(s.fetched),
                Err(e) => Err(e),
            },
        ),
        Call::Resolve(name) => Answer::Names(names_for(s.names, name)),
        Call::IsAddress(name) => Answer::Flag(s.addresses.contains(name)),
        Call::KnownRedirects => Answer::Known(s.redirected),
        Call::KeepRedirects(addresses) => Answer::Nothing,
        Call::Datasource(arch) => Answer::Mirrors(Ok(s.datasource)),
        Call::Codename => Answer::Found(s.release),
        Call::Architecture => Answer::Read(Ok(s.arch)),
        Call::Fqdn => Answer::Text(s.fqdn),
        Call::Snappy => Answer::Flag(s.snappy),
        Call::Dump => Answer::Found(s.dump),
        Call::Packages => Answer::Read(Ok(s.packages)),
        Call::ListDir(path) => Answer::Names(names_for(s.dirs, path)),
        _ => Answer::Done(fails(s, call)),
    }
}

/// The script after it was asked: it wrote down the call, or counted it.
pub open spec fn script_after(s: Script, call: Call) -> Script {
    match call {
        Call::Report { level, source, text } => Script { log: s.log.push(log_line(level, source, text)), ..s },
        _ => {
            match call {
                Call::DrawName => Script {
                    next_key: if s.next_key < u64::MAX {
                        s.next_key + 1
                    } else {
                        s.next_key
                    },
                    ..s
                },
                Call::KeepRedirects(addresses) => Script { redirected: Some(addresses), ..s },
                _ => match line(call) {
                    Some(text) => Script { calls: s.calls.push(text), ..s },
                    None => s,
                },
            }
        },
    }
}

impl Fixture {
    /// The script as it is now.
    pub open spec fn script(&self) -> Script {
        Script {
            files: text_table(self.files@),
            templates_dir: self.templates_dir@,
            templates: text_table(self.templates@),
            rendered: text_table(self.rendered@),
            commands: texts(self.commands@),
            keys: byte_table(self.keys@),
            fetched: opt_text(self.fetched),
            names: list_table(self.names@),
            addresses: texts(self.addresses@),
            redirected: opt_texts(self.redirected),
            datasource: self.datasource@,
            release: opt_text(self.release),
            arch: self.arch@,
            fqdn: self.fqdn@,
            snappy: self.snappy,
            dump: opt_text(self.dump),
            packages: self.packages@,
            dirs: list_table(self.dirs@),
            errors: text_table(self.errors@),
            next_key: self.next_key as nat,
            update: steps_of(self.update@),
            install: steps_of(self.install@),
            not_installed: opt_text(self.not_installed),
            done: texts(self.done@),
            calls: texts(self.calls@),
            log: texts(self.log@),
        }
    }

    fn record(&mut self, call: &str, Ghost(question): Ghost<Call>)
        requires
            line(question) == Some(call@),
        ensures
            final(self).script() == (Script { calls: old(self).script().calls.push(call@), ..old(self).script() }),
            final(self).trace@ == old(self).trace@.push(question),
    {
        broadcast use texts_push;
        self.calls.push(call.to_owned());
        proof {
            self.trace@ = self.trace@.push(question);
        }
    }

    fn note(&mut self, Ghost(question): Ghost<Call>)
        ensures
            final(self).script() == old(self).script(),
            final(self).trace@ == old(self).trace@.push(question),
    {
        proof {
            self.trace@ = self.trace@.push(question);
        }
    }
}

impl Default for Fixture {
    fn default() -> (r: Self)
        ensures
            r.script() == (Script {
                files: Seq::empty(),
                templates_dir: "/etc/cloud/templates"@,
                templates: Seq::empty(),
                rendered: Seq::empty(),
                commands: Seq::empty(),
                keys: Seq::empty(),
                fetched: None,
                names: Seq::empty(),
                addresses: Seq::empty(),
                redirected: None,
                datasource: Seq::empty(),
                release: None,
                arch: "amd64"@,
                fqdn: Seq::empty(),
                snappy: false,
                dump: None,
                packages: Seq::empty(),
                dirs: Seq::empty(),
                errors: Seq::empty(),
                next_key: 1,
                update: Seq::empty(),
                install: Seq::empty(),
                not_installed: None,
                done: Seq::empty(),
                calls: Seq::empty(),
                log: Seq::empty(),
            }),
            r.trace@ == Seq::<Call>::empty(),
    {
        let r = Fixture {
            files: Vec::new(),
            templates_dir: "/etc/cloud/templates".to_owned(),
            templates: Vec::new(),
            rendered: Vec::new(),
            commands: Vec::new(),
            keys: Vec::new(),
            fetched: None,
            names: Vec::new(),
            addresses: Vec::new(),
            redirected: None,
            datasource: Object::new(),
            release: None,
            arch: "amd64".to_owned(),
            fqdn: String::new(),
            snappy: false,
            dump: None,
            packages: String::new(),
            dirs: Vec::new(),
            errors: Vec::new(),
            next_key: 1,
            update: Vec::new(),
            install: Vec::new(),
            not_installed: None,
            done: Vec::new(),
            calls: Vec::new(),
            log: Vec::new(),
            trace: Ghost(Seq::empty()),
        };
        proof {
            let w = r.script();
            assert(w.files =~= Seq::empty());
            assert(w.templates =~= Seq::empty());
            assert(w.rendered =~= Seq::empty());
            assert(w.commands =~= Seq::empty());
            assert(w.keys =~= Seq::empty());
            assert(w.names =~= Seq::empty());
            assert(w.addresses =~= Seq::empty());
            assert(w.fqdn =~= Seq::empty());
            assert(w.packages =~= Seq::empty());
            assert(w.dirs =~= Seq::empty());
            assert(w.errors =~= Seq::empty());
            assert(w.update =~= Seq::empty());
            assert(w.install =~= Seq::empty());
            assert(w.done =~= Seq::empty());
            assert(w.calls =~= Seq::empty());
            assert(w.log =~= Seq::empty());
        }
        r
    }
}

impl Host for Fixture {
    type World = Script;

    open spec fn machine(&self) -> Machine<Call, Script> {
        Machine { calls: self.trace@, world: self.script() }
    }

    open spec fn reply(world: Script, call: Call) -> (Script, Answer) {
        (script_after(world, call), script_answer(world, call))
    }

    fn draw_name(&mut self) -> (r: String) {
        self.note(Ghost(Call::DrawName));
        let n = dec_of(self.next_key as u128);
        if self.next_key < u64::MAX {
            self.next_key = self.next_key + 1;
        }
        cat2("key", n.as_str())
    }

    fn which(&mut self, command: &str) -> (r: bool) {
        self.note(Ghost(Call::Which(command@)));
        has_text(&self.commands, command)
    }

    fn path_exists(&mut self, path: &str) -> (r: bool) {
        self.note(Ghost(Call::Exists(path@)));
        lookup_text(&self.files, path).is_some()
    }

    fn read_file(&mut self, path: &str) -> (r: Option<String>) {
        self.note(Ghost(Call::ReadFile(path@)));
        lookup_text(&self.files, path)
    }

    fn templates_dir(&mut self) -> (r: String) {
        self.note(Ghost(Call::TemplatesDir));
        self.templates_dir.clone()
    }

    fn template_exists(&mut self, name: &str) -> (r: bool) {
        self.note(Ghost(Call::TemplateExists(name@)));
        lookup_text(&self.templates, name).is_some()
    }

    fn load_template(&mut self, name: &str) -> (r: Option<String>) {
        self.record(cat2("load_template ", name).as_str(), Ghost(Call::LoadTemplate(name@)));
        lookup_text(&self.templates, name)
    }

    fn render(&mut self, text: &str, params: &Object) -> (r: Result<String, String>) {
        self.note(Ghost(Call::Render { text: text@, params: params@ }));
        match lookup_text(&self.rendered, text) {
            Some(out) => Ok(out),
            None => Ok(text.to_owned()),
        }
    }

    fn open_keyring(&mut self) -> (r: Result<(), String>) {
        self.record("keyring", Ghost(Call::OpenKeyring));
        fail_as_scripted(&self.errors, "keyring")
    }

    fn dearmor(&mut self, key: &str) -> (r: Result<Vec<u8>, String>) {
        self.record(cat2("dearmor ", key).as_str(), Ghost(Call::Dearmor(key@)));
        match lookup_bytes(&self.keys, key) {
            Some(bytes) => Ok(bytes),
            None => Err("gpg said no".to_owned()),
        }
    }

    fn getkeybyid(&mut self, keyid: &str, keyserver: &str) -> (r: Result<Option<String>, String>) {
        let call = cat4("getkeybyid ", keyid, " ", keyserver);
        self.record(call.as_str(), Ghost(Call::GetKey { keyid: keyid@, keyserver: keyserver@ }));
        match fail_as_scripted(&self.errors, call.as_str()) {
            Ok(()) => Ok(copy_option(&self.fetched)),
            Err(e) => Err(e),
        }
    }

    fn resolve(&mut self, name: &str) -> (r: Vec<String>) {
        self.note(Ghost(Call::Resolve(name@)));
        names_at(&self.names, name)
    }

    fn is_address(&mut self, name: &str) -> (r: bool) {
        self.note(Ghost(Call::IsAddress(name@)));
        has_text(&self.addresses, name)
    }

    fn known_redirects(&mut self) -> (r: Option<Vec<String>>) {
        self.note(Ghost(Call::KnownRedirects));
        match &self.redirected {
            Some(addresses) => Some(copy_strings(addresses)),
            None => None,
        }
    }

    fn keep_redirects(&mut self, addresses: &Vec<String>) {
        self.note(Ghost(Call::KeepRedirects(texts(addresses@))));
        self.redirected = Some(copy_strings(addresses));
    }

    fn datasource_mirrors(&mut self, arch: &str) -> (r: Result<Object, String>) {
        self.note(Ghost(Call::Datasource(arch@)));
        Ok(self.datasource.clone())
    }

    fn codename(&mut self) -> (r: Option<String>) {
        self.note(Ghost(Call::Codename));
        copy_option(&self.release)
    }

    fn architecture(&mut self) -> (r: Result<String, String>) {
        self.note(Ghost(Call::Architecture));
        Ok(self.arch.clone())
    }

    fn fqdn(&mut self) -> (r: String) {
        self.note(Ghost(Call::Fqdn));
        self.fqdn.clone()
    }

    fn is_snappy(&mut self) -> (r: bool) {
        self.note(Ghost(Call::Snappy));
        self.snappy
    }

    fn apt_config_dump(&mut self) -> (r: Option<String>) {
        self.note(Ghost(Call::Dump));
        copy_option(&self.dump)
    }

    fn dpkg_list(&mut self) -> (r: Result<String, String>) {
        self.note(Ghost(Call::Packages));
        Ok(self.packages.clone())
    }

    fn plan_install(&mut self, names: &Vec<String>) -> (r: Result<InstallPlan, String>) {
        let call = cat2("plan_install ", join_with(names, " ").as_str());
        self.record(call.as_str(), Ghost(Call::PlanInstall(texts(names@))));
        match fail_as_scripted(&self.errors, call.as_str()) {
            Ok(()) => Ok(InstallPlan { steps: copy_steps(&self.install), failed: copy_option(&self.not_installed) }),
            Err(e) => Err(e),
        }
    }

    fn plan_update(&mut self) -> (r: Result<Vec<PackageStep>, String>) {
        self.record("plan_update", Ghost(Call::PlanUpdate));
        match fail_as_scripted(&self.errors, "plan_update") {
            Ok(()) => Ok(copy_steps(&self.update)),
            Err(e) => Err(e),
        }
    }

    fn step_done(&mut self, name: &str) -> (r: bool) {
        self.note(Ghost(Call::StepDone(name@)));
        has_text(&self.done, name)
    }

    fn run_package_step(&mut self, step: &PackageStep) -> (r: Result<(), String>) {
        let call = cat2("run ", join_with(&step.argv, " ").as_str());
        self.record(call.as_str(), Ghost(Call::RunPackageStep(step@)));
        fail_as_scripted(&self.errors, call.as_str())
    }

    fn ensure_parent(&mut self, path: &str) -> (r: Result<(), String>) {
        let call = cat2("ensure_parent ", path);
        self.record(call.as_str(), Ghost(Call::EnsureParent(path@)));
        fail_as_scripted(&self.errors, call.as_str())
    }

    fn write_file(&mut self, path: &str, content: &Vec<u8>, mode: u32) -> (r: Result<(), String>) {
        let call = cat4("write ", path, " ", octal4_of(mode).as_str());
        self.record(call.as_str(), Ghost(Call::Write { path: path@, content: content@, mode }));
        fail_as_scripted(&self.errors, call.as_str())
    }

    fn append_file(&mut self, path: &str, content: &Vec<u8>, mode: u32) -> (r: Result<(), String>) {
        let call = cat4("append ", path, " ", octal4_of(mode).as_str());
        self.record(call.as_str(), Ghost(Call::Append { path: path@, content: content@, mode }));
        fail_as_scripted(&self.errors, call.as_str())
    }

    fn feed(&mut self, argv: &Vec<String>, data: &Vec<u8>) -> (r: Result<(), String>) {
        let call = cat2("feed ", join_with(argv, " ").as_str());
        self.record(call.as_str(), Ghost(Call::Feed { argv: texts(argv@), data: data@ }));
        fail_as_scripted(&self.errors, call.as_str())
    }

    fn subp(&mut self, argv: &Vec<String>) -> (r: Result<(), String>) {
        let call = cat2("subp ", join_with(argv, " ").as_str());
        self.record(call.as_str(), Ghost(Call::Subp(texts(argv@))));
        fail_as_scripted(&self.errors, call.as_str())
    }

    fn list_dir(&mut self, path: &str) -> (r: Vec<String>) {
        self.note(Ghost(Call::ListDir(path@)));
        names_at(&self.dirs, path)
    }

    fn remove_file(&mut self, path: &str) -> (r: Result<(), String>) {
        let call = cat2("remove ", path);
        self.record(call.as_str(), Ghost(Call::RemoveFile(path@)));
        fail_as_scripted(&self.errors, call.as_str())
    }

    fn rename(&mut self, from: &str, to: &str) -> (r: Result<(), String>) {
        let call = cat4("rename ", from, " ", to);
        self.record(call.as_str(), Ghost(Call::Rename { from: from@, to: to@ }));
        fail_as_scripted(&self.errors, call.as_str())
    }

    fn report(&mut self, level: Level, source: &str, text: &str) {
        broadcast use texts_push;
        self.log.push(log_line_of(level, source, text));
        proof {
            self.trace@ = self.trace@.push(Call::Report { level, source: source@, text: text@ });
        }
    }
}

}
