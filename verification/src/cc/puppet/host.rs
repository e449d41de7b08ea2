//! What setting up puppet asks of the machine.

use vstd::prelude::*;

use crate::cc::{
    cmd_output, cmd_result, fail_as_scripted, failure, output_as_scripted, scripted_output, text_result, unit_result,
    CmdError, CmdFailed,
};
use crate::machine::{answers, asked, log_line, log_line_of, lookup, lookup_text, set_in_table, table_set, text_table, Level, Machine};
use crate::number::{octal4, octal4_of};
use crate::show::{repr, repr_of};
use crate::text::{cat2, cat3, cat4, cat6, join, join_with, texts, texts_push};
use crate::value::{Node, Val};

verus! {

/// A question to the machine.
pub enum Call {
    Install(Val),
    Service { action: Seq<char>, service: Seq<char> },
    Subp { argv: Seq<Seq<char>>, capture: bool },
    ReadUrl(Seq<char>),
    TempDir,
    LoadFile(Seq<char>),
    WriteFile { path: Seq<char>, content: Seq<char>, mode: Option<u32> },
    EnsureDir { path: Seq<char>, mode: Option<u32> },
    Chown { path: Seq<char>, user: Seq<char>, group: Seq<char> },
    Rename { src: Seq<char>, dst: Seq<char> },
    Fqdn,
    InstanceId,
    ReadConfig { text: Seq<char>, name: Seq<char> },
    SetConfig { section: Seq<char>, option: Seq<char>, value: Seq<char> },
    ConfigText,
    DumpYaml(Val),
    Report { level: Level, source: Seq<char>, text: Seq<char> },
}

/// The machine's answer to a question.
pub enum Answer {
    Done(Result<(), Seq<char>>),
    Managed(Result<(), CmdFailed>),
    Output(Result<Seq<char>, CmdFailed>),
    Read(Result<Seq<char>, Seq<char>>),
    Text(Seq<char>),
    Nothing,
}

/// Everything that setting up puppet asks of the machine.
///
/// A machine is a state and a rule: [`Host::reply`] gives, for a state and a
/// call, the next state and the answer.
pub trait Host: Sized {
    type World;

    spec fn machine(&self) -> Machine<Call, Self::World>;

    spec fn reply(world: Self::World, call: Call) -> (Self::World, Answer);

    /// Installs packages.
    fn install_packages(&mut self, packages: &Node) -> (r: Result<(), String>)
        ensures
            answers(
                old(self).machine(),
                Call::Install(packages@),
                Self::reply(old(self).machine().world, Call::Install(packages@)),
                final(self).machine(),
                Answer::Done(unit_result(r)),
            ),
    ;

    /// Does something to a service.
    fn manage_service(&mut self, action: &str, service: &str) -> (r: Result<(), CmdError>)
        ensures
            answers(
                old(self).machine(),
                Call::Service { action: action@, service: service@ },
                Self::reply(old(self).machine().world, Call::Service { action: action@, service: service@ }),
                final(self).machine(),
                Answer::Managed(cmd_result(r)),
            ),
    ;

    /// Runs a command; what it printed, where that is caught.
    fn subp(&mut self, argv: &Vec<String>, capture: bool) -> (r: Result<String, CmdError>)
        ensures
            answers(
                old(self).machine(),
                Call::Subp { argv: texts(argv@), capture },
                Self::reply(old(self).machine().world, Call::Subp { argv: texts(argv@), capture }),
                final(self).machine(),
                Answer::Output(cmd_output(r)),
            ),
    ;

    /// Fetches what is at an address.
    fn readurl(&mut self, url: &str) -> (r: Result<String, String>)
        ensures
            answers(
                old(self).machine(),
                Call::ReadUrl(url@),
                Self::reply(old(self).machine().world, Call::ReadUrl(url@)),
                final(self).machine(),
                Answer::Read(text_result(r)),
            ),
    ;

    /// Makes a directory for things that are run and then not needed any more.
    fn tempdir(&mut self) -> (r: Result<String, String>)
        ensures
            answers(
                old(self).machine(),
                Call::TempDir,
                Self::reply(old(self).machine().world, Call::TempDir),
                final(self).machine(),
                Answer::Read(text_result(r)),
            ),
    ;

    /// Reads a file.
    fn load_text_file(&mut self, path: &str) -> (r: Result<String, String>)
        ensures
            answers(
                old(self).machine(),
                Call::LoadFile(path@),
                Self::reply(old(self).machine().world, Call::LoadFile(path@)),
                final(self).machine(),
                Answer::Read(text_result(r)),
            ),
    ;

    /// Writes a file.
    fn write_file(&mut self, path: &str, content: &str, mode: Option<u32>) -> (r: Result<(), String>)
        ensures
            answers(
                old(self).machine(),
                Call::WriteFile { path: path@, content: content@, mode },
                Self::reply(old(self).machine().world, Call::WriteFile { path: path@, content: content@, mode }),
                final(self).machine(),
                Answer::Done(unit_result(r)),
            ),
    ;

    /// Sees that a directory is there.
    fn ensure_dir(&mut self, path: &str, mode: Option<u32>) -> (r: Result<(), String>)
        ensures
            answers(
                old(self).machine(),
                Call::EnsureDir { path: path@, mode },
                Self::reply(old(self).machine().world, Call::EnsureDir { path: path@, mode }),
                final(self).machine(),
                Answer::Done(unit_result(r)),
            ),
    ;

    /// Gives a path to a user and a group.
    fn chownbyname(&mut self, path: &str, user: &str, group: &str) -> (r: Result<(), String>)
        ensures
            answers(
                old(self).machine(),
                Call::Chown { path: path@, user: user@, group: group@ },
                Self::reply(old(self).machine().world, Call::Chown { path: path@, user: user@, group: group@ }),
                final(self).machine(),
                Answer::Done(unit_result(r)),
            ),
    ;

    /// Renames a file.
    fn rename(&mut self, src: &str, dst: &str) -> (r: Result<(), String>)
        ensures
            answers(
                old(self).machine(),
                Call::Rename { src: src@, dst: dst@ },
                Self::reply(old(self).machine().world, Call::Rename { src: src@, dst: dst@ }),
                final(self).machine(),
                Answer::Done(unit_result(r)),
            ),
    ;

    /// The full name of the machine.
    fn getfqdn(&mut self) -> (r: String)
        ensures
            answers(
                old(self).machine(),
                Call::Fqdn,
                Self::reply(old(self).machine().world, Call::Fqdn),
                final(self).machine(),
                Answer::Text(r@),
            ),
    ;

    /// The name of the instance.
    fn instance_id(&mut self) -> (r: String)
        ensures
            answers(
                old(self).machine(),
                Call::InstanceId,
                Self::reply(old(self).machine().world, Call::InstanceId),
                final(self).machine(),
                Answer::Text(r@),
            ),
    ;

    /// Takes up the settings in the text of a file of that name, in place of those taken up before.
    fn read_config(&mut self, text: &str, name: &str) -> (r: Result<(), String>)
        ensures
            answers(
                old(self).machine(),
                Call::ReadConfig { text: text@, name: name@ },
                Self::reply(old(self).machine().world, Call::ReadConfig { text: text@, name: name@ }),
                final(self).machine(),
                Answer::Done(unit_result(r)),
            ),
    ;

    /// Sets an option of a section of the settings that were taken up.
    fn set_config(&mut self, section: &str, option: &str, value: &str) -> (r: Result<(), String>)
        ensures
            answers(
                old(self).machine(),
                Call::SetConfig { section: section@, option: option@, value: value@ },
                Self::reply(old(self).machine().world, Call::SetConfig { section: section@, option: option@, value: value@ }),
                final(self).machine(),
                Answer::Done(unit_result(r)),
            ),
    ;

    /// The settings that were taken up, as a file.
    fn config_text(&mut self) -> (r: String)
        ensures
            answers(
                old(self).machine(),
                Call::ConfigText,
                Self::reply(old(self).machine().world, Call::ConfigText),
                final(self).machine(),
                Answer::Text(r@),
            ),
    ;

    /// A value in block notation.
    fn dump_yaml(&mut self, value: &Node) -> (r: String)
        ensures
            answers(
                old(self).machine(),
                Call::DumpYaml(value@),
                Self::reply(old(self).machine().world, Call::DumpYaml(value@)),
                final(self).machine(),
                Answer::Text(r@),
            ),
    ;

    /// Writes a line to the log, under the name of what it comes from.
    fn report(&mut self, level: Level, source: &str, text: &str)
        ensures
            final(self).machine() == asked(
                old(self).machine(),
                Call::Report { level, source: source@, text: text@ },
                Self::reply(old(self).machine().world, Call::Report { level, source: source@, text: text@ }).0,
            ),
    ;
}

/// A machine that the module works on.
pub type Agent<H> = Machine<Call, <H as Host>::World>;

pub open spec fn ask_report<H: Host>(m: Agent<H>, level: Level, source: Seq<char>, text: Seq<char>) -> Agent<H> {
    let call = Call::Report { level, source, text };
    asked(m, call, H::reply(m.world, call).0)
}

/// The name under which the module writes to the log.
pub const SOURCE: &'static str = "cc_puppet.py";

/// A line that only helps to follow what happens.
pub open spec fn logged<H: Host>(m: Agent<H>, text: Seq<char>) -> Agent<H> {
    ask_report::<H>(m, Level::Debug, SOURCE@, text)
}

pub fn log_debug<H: Host>(host: &mut H, text: &str)
    ensures
        final(host).machine() == logged::<H>(old(host).machine(), text@),
{
    host.report(Level::Debug, SOURCE, text);
}

/// A warning.
pub open spec fn warned<H: Host>(m: Agent<H>, text: Seq<char>) -> Agent<H> {
    ask_report::<H>(m, Level::Warning, SOURCE@, text)
}

pub fn log_warn<H: Host>(host: &mut H, text: &str)
    ensures
        final(host).machine() == warned::<H>(old(host).machine(), text@),
{
    host.report(Level::Warning, SOURCE, text);
}

pub open spec fn ask_install_packages<H: Host>(m: Agent<H>, packages: Val) -> (Agent<H>, Result<(), Seq<char>>) {
    let (w, a) = H::reply(m.world, Call::Install(packages));
    (asked(m, Call::Install(packages), w), a->Done_0)
}

pub open spec fn ask_manage_service<H: Host>(m: Agent<H>, action: Seq<char>, service: Seq<char>) -> (Agent<H>, Result<(), CmdFailed>) {
    let (w, a) = H::reply(m.world, Call::Service { action, service });
    (asked(m, Call::Service { action, service }, w), a->Managed_0)
}

pub open spec fn ask_subp<H: Host>(m: Agent<H>, argv: Seq<Seq<char>>, capture: bool) -> (Agent<H>, Result<Seq<char>, CmdFailed>) {
    let (w, a) = H::reply(m.world, Call::Subp { argv, capture });
    (asked(m, Call::Subp { argv, capture }, w), a->Output_0)
}

pub open spec fn ask_readurl<H: Host>(m: Agent<H>, url: Seq<char>) -> (Agent<H>, Result<Seq<char>, Seq<char>>) {
    let (w, a) = H::reply(m.world, Call::ReadUrl(url));
    (asked(m, Call::ReadUrl(url), w), a->Read_0)
}

pub open spec fn ask_tempdir<H: Host>(m: Agent<H>) -> (Agent<H>, Result<Seq<char>, Seq<char>>) {
    let (w, a) = H::reply(m.world, Call::TempDir);
    (asked(m, Call::TempDir, w), a->Read_0)
}

pub open spec fn ask_load_text_file<H: Host>(m: Agent<H>, path: Seq<char>) -> (Agent<H>, Result<Seq<char>, Seq<char>>) {
    let (w, a) = H::reply(m.world, Call::LoadFile(path));
    (asked(m, Call::LoadFile(path), w), a->Read_0)
}

pub open spec fn ask_write_file<H: Host>(m: Agent<H>, path: Seq<char>, content: Seq<char>, mode: Option<u32>) -> (Agent<H>, Result<(), Seq<char>>) {
    let (w, a) = H::reply(m.world, Call::WriteFile { path, content, mode });
    (asked(m, Call::WriteFile { path, content, mode }, w), a->Done_0)
}

pub open spec fn ask_ensure_dir<H: Host>(m: Agent<H>, path: Seq<char>, mode: Option<u32>) -> (Agent<H>, Result<(), Seq<char>>) {
    let (w, a) = H::reply(m.world, Call::EnsureDir { path, mode });
    (asked(m, Call::EnsureDir { path, mode }, w), a->Done_0)
}

pub open spec fn ask_chownbyname<H: Host>(m: Agent<H>, path: Seq<char>, user: Seq<char>, group: Seq<char>) -> (Agent<H>, Result<(), Seq<char>>) {
    let (w, a) = H::reply(m.world, Call::Chown { path, user, group });
    (asked(m, Call::Chown { path, user, group }, w), a->Done_0)
}

pub open spec fn ask_rename<H: Host>(m: Agent<H>, src: Seq<char>, dst: Seq<char>) -> (Agent<H>, Result<(), Seq<char>>) {
    let (w, a) = H::reply(m.world, Call::Rename { src, dst });
    (asked(m, Call::Rename { src, dst }, w), a->Done_0)
}

pub open spec fn ask_getfqdn<H: Host>(m: Agent<H>) -> (Agent<H>, Seq<char>) {
    let (w, a) = H::reply(m.world, Call::Fqdn);
    (asked(m, Call::Fqdn, w), a->Text_0)
}

pub open spec fn ask_instance_id<H: Host>(m: Agent<H>) -> (Agent<H>, Seq<char>) {
    let (w, a) = H::reply(m.world, Call::InstanceId);
    (asked(m, Call::InstanceId, w), a->Text_0)
}

pub open spec fn ask_read_config<H: Host>(m: Agent<H>, text: Seq<char>, name: Seq<char>) -> (Agent<H>, Result<(), Seq<char>>) {
    let (w, a) = H::reply(m.world, Call::ReadConfig { text, name });
    (asked(m, Call::ReadConfig { text, name }, w), a->Done_0)
}

pub open spec fn ask_set_config<H: Host>(m: Agent<H>, section: Seq<char>, option: Seq<char>, value: Seq<char>) -> (Agent<H>, Result<(), Seq<char>>) {
    let (w, a) = H::reply(m.world, Call::SetConfig { section, option, value });
    (asked(m, Call::SetConfig { section, option, value }, w), a->Done_0)
}

pub open spec fn ask_config_text<H: Host>(m: Agent<H>) -> (Agent<H>, Seq<char>) {
    let (w, a) = H::reply(m.world, Call::ConfigText);
    (asked(m, Call::ConfigText, w), a->Text_0)
}

pub open spec fn ask_dump_yaml<H: Host>(m: Agent<H>, value: Val) -> (Agent<H>, Seq<char>) {
    let (w, a) = H::reply(m.world, Call::DumpYaml(value));
    (asked(m, Call::DumpYaml(value), w), a->Text_0)
}

// ---------------------------------------------------------------------------
// A scripted machine

/// A mode as it is written down.
pub open spec fn mode_text(mode: Option<u32>) -> Seq<char> {
    match mode {
        Some(mode) => " mode="@ + octal4(mode as nat),
        None => ""@,
    }
}

fn mode_of(mode: Option<u32>) -> (r: String)
    ensures
        r@ == mode_text(mode),
{
    match mode {
        Some(mode) => cat2(" mode=", octal4_of(mode).as_str()),
        None => "".to_owned(),
    }
}

/// A text, or nothing where there is none.
pub open spec fn or_nothing(o: Option<Seq<char>>) -> Seq<char> {
    match o {
        Some(s) => s,
        None => Seq::empty(),
    }
}

fn found_or_nothing(table: &Vec<(String, String)>, key: &str) -> (r: String)
    ensures
        r@ == or_nothing(lookup(text_table(table@), key@)),
{
    match lookup_text(table, key) {
        Some(s) => s,
        None => {
            let none = String::new();
            assert(none@ =~= Seq::empty());
            none
        },
    }
}

/// A machine whose every answer is set up front, and which writes down what it
/// is asked.
pub struct Fixture {
    /// Calls that fail, by what is written down of them, and the message.
    pub failures: Vec<(String, String)>,
    /// What commands print and addresses hold, by what is written down of them.
    pub stdout: Vec<(String, String)>,
    /// Files, by path.
    pub files: Vec<(String, String)>,
    /// The full name of the machine.
    pub fqdn: String,
    /// The name of the instance.
    pub iid: String,
    /// The directory for what is not needed any more.
    pub tmpdir: String,
    /// Texts that no settings can be taken up from, and the message.
    pub unreadable: Vec<(String, String)>,
    /// Sections that nothing can be set in, and the message.
    pub refused: Vec<(String, String)>,
    /// What the settings are as a file, each time in turn that they are asked for.
    pub rendered: Vec<String>,
    /// Values as they are printed, and their block notation.
    pub yaml: Vec<(String, String)>,
    /// What was asked, in order.
    pub calls: Vec<String>,
    /// What each file that was written holds, in the order in which they were first written.
    pub written: Vec<(String, String)>,
    /// Sections and options that were set, with a point between them, and their values, in order.
    pub settings: Vec<(String, String)>,
    /// The lines of the log, in order.
    pub log: Vec<String>,
    /// The questions themselves.
    pub trace: Ghost<Seq<Call>>,
}

/// The script of a [`Fixture`] and what it wrote down.
pub struct Script {
    pub failures: Seq<(Seq<char>, Seq<char>)>,
    pub stdout: Seq<(Seq<char>, Seq<char>)>,
    pub files: Seq<(Seq<char>, Seq<char>)>,
    pub fqdn: Seq<char>,
    pub iid: Seq<char>,
    pub tmpdir: Seq<char>,
    pub unreadable: Seq<(Seq<char>, Seq<char>)>,
    pub refused: Seq<(Seq<char>, Seq<char>)>,
    pub rendered: Seq<Seq<char>>,
    pub yaml: Seq<(Seq<char>, Seq<char>)>,
    pub calls: Seq<Seq<char>>,
    pub written: Seq<(Seq<char>, Seq<char>)>,
    pub settings: Seq<(Seq<char>, Seq<char>)>,
    pub log: Seq<Seq<char>>,
}

/// What a [`Fixture`] writes down when it is asked something.
pub open spec fn line(call: Call) -> Option<Seq<char>> {
    match call {
        Call::Report { level, source, text } => None,
        Call::Install(packages) => Some("install_packages "@ + repr(packages)),
        Call::Service { action, service } => Some("manage_service "@ + action + " "@ + service),
        Call::Subp { argv, capture } => Some(
            "subp "@ + join(argv, " "@) + " capture="@ + if capture {
                "True"@
            } else {
                "False"@
            },
        ),
        Call::ReadUrl(url) => Some("readurl "@ + url),
        Call::TempDir => Some("tempdir"@),
        Call::LoadFile(path) => Some("load_text_file "@ + path),
        Call::WriteFile { path, content, mode } => Some("write_file "@ + path + mode_text(mode)),
        Call::EnsureDir { path, mode } => Some("ensure_dir "@ + path + mode_text(mode)),
        Call::Chown { path, user, group } => Some("chownbyname "@ + path + " "@ + user + " "@ + group),
        Call::Rename { src, dst } => Some("rename "@ + src + " "@ + dst),
        Call::Fqdn => Some("getfqdn"@),
        Call::InstanceId => Some("get_instance_id"@),
        Call::ReadConfig { text, name } => None,
        Call::SetConfig { section, option, value } => None,
        Call::ConfigText => None,
        Call::DumpYaml(value) => None,
    }
}

/// Whether a call is scripted to fail.
pub open spec fn fails(s: Script, call: Call) -> Result<(), Seq<char>> {
    match line(call) {
        Some(text) => failure(s.failures, text),
        None => Ok(()),
    }
}

/// What a script answers.
pub open spec fn script_answer(s: Script, call: Call) -> Answer {
    match call {
        Call::Report { level, source, text } => Answer::Nothing,
        Call::Install(packages) => Answer::Done(fails(s, call)),
        Call::Service { action, service } => Answer::Managed(
            match scripted_output(s.failures, s.stdout, line(call)->0) {
                Ok(_) => Ok(()),
                Err(e) => Err(e),
            },
        ),
        Call::Subp { argv, capture } => Answer::Output(scripted_output(s.failures, s.stdout, line(call)->0)),
        Call::ReadUrl(url) => Answer::Read(
            match fails(s, call) {
                Err(e) => Err(e),
                Ok(()) => Ok(or_nothing(lookup(s.stdout, line(call)->0))),
            },
        ),
        Call::TempDir => Answer::Read(
            match fails(s, call) {
                Err(e) => Err(e),
                Ok(()) => Ok(s.tmpdir),
            },
        ),
        Call::LoadFile(path) => Answer::Read(
            match fails(s, call) {
                Err(e) => Err(e),
                Ok(()) => match lookup(s.files, path) {
                    Some(text) => Ok(text),
                    None => Err("[Errno 2] No such file or directory: '"@ + path + "'"@),
                },
            },
        ),
        Call::WriteFile { path, content, mode } => Answer::Done(fails(s, call)),
        Call::EnsureDir { path, mode } => Answer::Done(fails(s, call)),
        Call::Chown { path, user, group } => Answer::Done(fails(s, call)),
        Call::Rename { src, dst } => Answer::Done(fails(s, call)),
        Call::Fqdn => Answer::Text(s.fqdn),
        Call::InstanceId => Answer::Text(s.iid),
        Call::ReadConfig { text, name } => Answer::Done(failure(s.unreadable, text)),
        Call::SetConfig { section, option, value } => Answer::Done(failure(s.refused, section)),
        Call::ConfigText => Answer::Text(
            if s.rendered.len() > 0 {
                s.rendered[0]
            } else {
                Seq::empty()
            },
        ),
        Call::DumpYaml(value) => Answer::Text(or_nothing(lookup(s.yaml, repr(value)))),
    }
}

/// The script once a file holds a text.
pub open spec fn file_set(s: Script, path: Seq<char>, text: Seq<char>) -> Script {
    Script { files: table_set(s.files, path, text), written: table_set(s.written, path, text), ..s }
}

/// The script after it was asked.
pub open spec fn script_after(s: Script, call: Call) -> Script {
    match call {
        Call::Report { level, source, text } => Script { log: s.log.push(log_line(level, source, text)), ..s },
        _ => {
            let calls = match line(call) {
                Some(text) => s.calls.push(text),
                None => s.calls,
            };
            let next = Script { calls, ..s };
            match call {
                Call::WriteFile { path, content, mode } => if fails(s, call) is Ok {
                    file_set(next, path, content)
                } else {
                    next
                },
                Call::Rename { src, dst } => match lookup(s.files, src) {
                    Some(text) => if fails(s, call) is Ok {
                        file_set(next, dst, text)
                    } else {
                        next
                    },
                    None => next,
                },
                Call::SetConfig { section, option, value } => Script {
                    settings: s.settings.push((section + "."@ + option, value)),
                    ..next
                },
                Call::ConfigText => Script {
                    rendered: if s.rendered.len() > 0 {
                        s.rendered.skip(1)
                    } else {
                        s.rendered
                    },
                    ..next
                },
                _ => next,
            }
        },
    }
}

impl Fixture {
    /// The script as it is now.
    pub open spec fn script(&self) -> Script {
        Script {
            failures: text_table(self.failures@),
            stdout: text_table(self.stdout@),
            files: text_table(self.files@),
            fqdn: self.fqdn@,
            iid: self.iid@,
            tmpdir: self.tmpdir@,
            unreadable: text_table(self.unreadable@),
            refused: text_table(self.refused@),
            rendered: texts(self.rendered@),
            yaml: text_table(self.yaml@),
            calls: texts(self.calls@),
            log: texts(self.log@),
            written: text_table(self.written@),
            settings: text_table(self.settings@),
        }
    }

    fn record(&mut self, call: &str, Ghost(question): Ghost<Call>)
        requires
            line(question) == Some(call@),
        ensures
            final(self).script() == (Script { calls: old(self).script().calls.push(call@), ..old(self).script() }),
            final(self).trace@ == old(self).trace@.push(question),
    {
        broadcast use texts_push;
        self.calls.push(call.to_owned());
        proof {
            self.trace@ = self.trace@.push(question);
        }
    }

    fn note(&mut self, Ghost(question): Ghost<Call>)
        ensures
            final(self).script() == old(self).script(),
            final(self).trace@ == old(self).trace@.push(question),
    {
        proof {
            self.trace@ = self.trace@.push(question);
        }
    }
}

impl Default for Fixture {
    fn default() -> (r: Self)
        ensures
            r.script() == (Script {
                failures: Seq::empty(),
                stdout: Seq::empty(),
                files: Seq::empty(),
                fqdn: Seq::empty(),
                iid: Seq::empty(),
                tmpdir: Seq::empty(),
                unreadable: Seq::empty(),
                refused: Seq::empty(),
                rendered: Seq::empty(),
                yaml: Seq::empty(),
                calls: Seq::empty(),
                log: Seq::empty(),
                written: Seq::empty(),
                settings: Seq::empty(),
            }),
            r.trace@ == Seq::<Call>::empty(),
    {
        let r = Fixture {
            failures: Vec::new(),
            stdout: Vec::new(),
            files: Vec::new(),
            fqdn: String::new(),
            iid: String::new(),
            tmpdir: String::new(),
            unreadable: Vec::new(),
            refused: Vec::new(),
            rendered: Vec::new(),
            yaml: Vec::new(),
            calls: Vec::new(),
            log: Vec::new(),
            written: Vec::new(),
            settings: Vec::new(),
            trace: Ghost(Seq::empty()),
        };
        proof {
            let w = r.script();
            assert(w.failures =~= Seq::empty());
            assert(w.stdout =~= Seq::empty());
            assert(w.files =~= Seq::empty());
            assert(w.fqdn =~= Seq::empty());
            assert(w.iid =~= Seq::empty());
            assert(w.tmpdir =~= Seq::empty());
            assert(w.unreadable =~= Seq::empty());
            assert(w.refused =~= Seq::empty());
            assert(w.rendered =~= Seq::empty());
            assert(w.yaml =~= Seq::empty());
            assert(w.calls =~= Seq::empty());
            assert(w.log =~= Seq::empty());
            assert(w.written =~= Seq::empty());
            assert(w.settings =~= Seq::empty());
        }
        r
    }
}

impl Host for Fixture {
    type World = Script;

    open spec fn machine(&self) -> Machine<Call, Script> {
        Machine { calls: self.trace@, world: self.script() }
    }

    open spec fn reply(world: Script, call: Call) -> (Script, Answer) {
        (script_after(world, call), script_answer(world, call))
    }

    fn install_packages(&mut self, packages: &Node) -> (r: Result<(), String>) {
        let call = cat2("install_packages ", repr_of(packages).as_str());
        self.record(call.as_str(), Ghost(Call::Install(packages@)));
        fail_as_scripted(&self.failures, call.as_str())
    }

    fn manage_service(&mut self, action: &str, service: &str) -> (r: Result<(), CmdError>) {
        let call = cat4("manage_service ", action, " ", service);
        self.record(call.as_str(), Ghost(Call::Service { action: action@, service: service@ }));
        match output_as_scripted(&self.failures, &self.stdout, call.as_str()) {
            Ok(_) => Ok(()),
            Err(e) => Err(e),
        }
    }

    fn subp(&mut self, argv: &Vec<String>, capture: bool) -> (r: Result<String, CmdError>) {
        let call = cat4(
            "subp ",
            join_with(argv, " ").as_str(),
            " capture=",
            if capture {
                "True"
            } else {
                "False"
            },
        );
        self.record(call.as_str(), Ghost(Call::Subp { argv: texts(argv@), capture }));
        output_as_scripted(&self.failures, &self.stdout, call.as_str())
    }

    fn readurl(&mut self, url: &str) -> (r: Result<String, String>) {
        let call = cat2("readurl ", url);
        self.record(call.as_str(), Ghost(Call::ReadUrl(url@)));
        match fail_as_scripted(&self.failures, call.as_str()) {
            Err(e) => Err(e),
            Ok(()) => Ok(found_or_nothing(&self.stdout, call.as_str())),
        }
    }

    fn tempdir(&mut self) -> (r: Result<String, String>) {
        self.record("tempdir", Ghost(Call::TempDir));
        match fail_as_scripted(&self.failures, "tempdir") {
            Err(e) => Err(e),
            Ok(()) => Ok(self.tmpdir.clone()),
        }
    }

    fn load_text_file(&mut self, path: &str) -> (r: Result<String, String>) {
        let call = cat2("load_text_file ", path);
        self.record(call.as_str(), Ghost(Call::LoadFile(path@)));
        match fail_as_scripted(&self.failures, call.as_str()) {
            Err(e) => Err(e),
            Ok(()) => match lookup_text(&self.files, path) {
                Some(text) => Ok(text),
                None => Err(cat3("[Errno 2] No such file or directory: '", path, "'")),
            },
        }
    }

    fn write_file(&mut self, path: &str, content: &str, mode: Option<u32>) -> (r: Result<(), String>) {
        let call = cat3("write_file ", path, mode_of(mode).as_str());
        self.record(call.as_str(), Ghost(Call::WriteFile { path: path@, content: content@, mode }));
        let done = fail_as_scripted(&self.failures, call.as_str());
        if done.is_ok() {
            set_in_table(&mut self.files, path, content);
            set_in_table(&mut self.written, path, content);
        }
        done
    }

    fn ensure_dir(&mut self, path: &str, mode: Option<u32>) -> (r: Result<(), String>) {
        let call = cat3("ensure_dir ", path, mode_of(mode).as_str());
        self.record(call.as_str(), Ghost(Call::EnsureDir { path: path@, mode }));
        fail_as_scripted(&self.failures, call.as_str())
    }

    fn chownbyname(&mut self, path: &str, user: &str, group: &str) -> (r: Result<(), String>) {
        let call = cat6("chownbyname ", path, " ", user, " ", group);
        self.record(call.as_str(), Ghost(Call::Chown { path: path@, user: user@, group: group@ }));
        fail_as_scripted(&self.failures, call.as_str())
    }

    fn rename(&mut self, src: &str, dst: &str) -> (r: Result<(), String>) {
        let call = cat4("rename ", src, " ", dst);
        self.record(call.as_str(), Ghost(Call::Rename { src: src@, dst: dst@ }));
        let done = fail_as_scripted(&self.failures, call.as_str());
        if done.is_ok() {
            if let Some(text) = lookup_text(&self.files, src) {
                set_in_table(&mut self.files, dst, text.as_str());
                set_in_table(&mut self.written, dst, text.as_str());
            }
        }
        done
    }

    fn getfqdn(&mut self) -> (r: String) {
        self.record("getfqdn", Ghost(Call::Fqdn));
        self.fqdn.clone()
    }

    fn instance_id(&mut self) -> (r: String) {
        self.record("get_instance_id", Ghost(Call::InstanceId));
        self.iid.clone()
    }

    fn read_config(&mut self, text: &str, name: &str) -> (r: Result<(), String>) {
        self.note(Ghost(Call::ReadConfig { text: text@, name: name@ }));
        fail_as_scripted(&self.unreadable, text)
    }

    fn set_config(&mut self, section: &str, option: &str, value: &str) -> (r: Result<(), String>) {
        self.note(Ghost(Call::SetConfig { section: section@, option: option@, value: value@ }));
        let ghost before = self.script().settings;
        self.settings.push((cat3(section, ".", option), value.to_owned()));
        assert(self.script().settings =~= before.push((section@ + "."@ + option@, value@)));
        fail_as_scripted(&self.refused, section)
    }

    fn config_text(&mut self) -> (r: String) {
        self.note(Ghost(Call::ConfigText));
        let ghost before = texts(self.rendered@);
        if self.rendered.len() == 0 {
            let none = String::new();
            assert(none@ =~= Seq::empty());
            return none;
        }
        let first = self.rendered.remove(0);
        assert(texts(self.rendered@) =~= before.skip(1));
        first
    }

    fn dump_yaml(&mut self, value: &Node) -> (r: String) {
        self.note(Ghost(Call::DumpYaml(value@)));
        found_or_nothing(&self.yaml, repr_of(value).as_str())
    }

    fn report(&mut self, level: Level, source: &str, text: &str) {
        broadcast use texts_push;
        self.log.push(log_line_of(level, source, text));
        proof {
            self.trace@ = self.trace@.push(Call::Report { level, source: source@, text: text@ });
        }
    }
}

}
