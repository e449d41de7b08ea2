//! What setting up mcollective asks of the machine.

use vstd::prelude::*;
use vstd::utf8::encode_utf8;

use crate::cc::growpart::{list_text, py_list};
use crate::cc::{cmd_result, fail_as_scripted, failure, unit_result, CmdError, CmdFailed};
use crate::machine::{answers, asked, log_line, log_line_of, lookup, lookup_text, text_table, Level, Machine};
use crate::number::{dec_int, dec_int_of, octal4, octal4_of};
use crate::show::{repr, repr_of};
use crate::text::{cat2, cat3, cat4, cat6, cat7, has_text, join, join_with, opt_text, same, texts, texts_push};
use crate::value::{Node, Val};

verus! {

/// The number of the error that a file is not there.
pub const ENOENT: i32 = 2;

/// Why a file could not be read or copied.
#[derive(Debug, Clone, PartialEq, Eq)]
pub struct OsError {
    /// The number of the error.
    pub errno: i32,
    /// What is reported.
    pub display: String,
}

pub struct OsFailure {
    pub errno: i32,
    pub display: Seq<char>,
}

impl View for OsError {
    type V = OsFailure;

    open spec fn view(&self) -> OsFailure {
        OsFailure { errno: self.errno, display: self.display@ }
    }
}

/// That a file is not there.
pub open spec fn absent(path: Seq<char>) -> OsFailure {
    OsFailure { errno: ENOENT, display: "[Errno 2] No such file or directory: '"@ + path + "'"@ }
}

impl OsError {
    /// That a file is not there.
    pub fn not_found(path: &str) -> (r: Self)
        ensures
            r@ == absent(path@),
    {
        OsError { errno: ENOENT, display: cat3("[Errno 2] No such file or directory: '", path, "'") }
    }
}

/// What the errors are called that the module knows by name.
pub open spec fn error_name(errno: i32) -> Option<Seq<char>> {
    if errno == ENOENT {
        Some("No such file or directory"@)
    } else if errno == 13 {
        Some("Permission denied"@)
    } else if errno == 20 {
        Some("Not a directory"@)
    } else if errno == 21 {
        Some("Is a directory"@)
    } else {
        None
    }
}

pub fn strerror(errno: i32) -> (r: Option<String>)
    ensures
        opt_text(r) == error_name(errno),
{
    if errno == ENOENT {
        Some("No such file or directory".to_owned())
    } else if errno == 13 {
        Some("Permission denied".to_owned())
    } else if errno == 20 {
        Some("Not a directory".to_owned())
    } else if errno == 21 {
        Some("Is a directory".to_owned())
    } else {
        None
    }
}

pub open spec fn bytes_read(r: Result<Vec<u8>, OsError>) -> Result<Seq<u8>, OsFailure> {
    match r {
        Ok(b) => Ok(b@),
        Err(e) => Err(e@),
    }
}

pub open spec fn copy_result(r: Result<(), OsError>) -> Result<(), OsFailure> {
    match r {
        Ok(()) => Ok(()),
        Err(e) => Err(e@),
    }
}

pub open spec fn contents_result(r: Result<Vec<u8>, String>) -> Result<Seq<u8>, Seq<char>> {
    match r {
        Ok(b) => Ok(b@),
        Err(e) => Err(e@),
    }
}

/// A question to the machine.
#[allow(inconsistent_fields)]
pub enum Call {
    Install(Val),
    LoadFile(Seq<char>),
    WriteFile { path: Seq<char>, content: Seq<u8>, mode: u32 },
    Copy { src: Seq<char>, dest: Seq<char> },
    Subp(Seq<Seq<char>>),
    ReadSettings(Seq<u8>),
    NoSettings,
    SetText { key: Seq<char>, value: Seq<char> },
    HasSection(Seq<char>),
    AddSection(Seq<char>),
    SetInSection { name: Seq<char>, option: Seq<char>, value: Val },
    SettingsFile,
    Report { level: Level, source: Seq<char>, text: Seq<char> },
}

/// The machine's answer to a question.
pub enum Answer {
    Nothing,
    Done(Result<(), Seq<char>>),
    Bytes(Result<Seq<u8>, OsFailure>),
    Copied(Result<(), OsFailure>),
    Ran(Result<(), CmdFailed>),
    Flag(bool),
    Contents(Result<Seq<u8>, Seq<char>>),
}

/// Everything that setting up mcollective asks of the machine.
///
/// A machine is a state and a rule: [`Host::reply`] gives, for a state and a
/// call, the next state and the answer.
pub trait Host: Sized {
    type World;

    spec fn machine(&self) -> Machine<Call, Self::World>;

    spec fn reply(world: Self::World, call: Call) -> (Self::World, Answer);

    /// Installs packages.
    fn install_packages(&mut self, packages: &Node) -> (r: Result<(), String>)
        ensures
            answers(
                old(self).machine(),
                Call::Install(packages@),
                Self::reply(old(self).machine().world, Call::Install(packages@)),
                final(self).machine(),
                Answer::Done(unit_result(r)),
            ),
    ;

    /// Reads a file.
    fn load_binary_file(&mut self, path: &str) -> (r: Result<Vec<u8>, OsError>)
        ensures
            answers(
                old(self).machine(),
                Call::LoadFile(path@),
                Self::reply(old(self).machine().world, Call::LoadFile(path@)),
                final(self).machine(),
                Answer::Bytes(bytes_read(r)),
            ),
    ;

    /// Writes a file.
    fn write_file(&mut self, path: &str, content: &Vec<u8>, mode: u32) -> (r: Result<(), String>)
        ensures
            answers(
                old(self).machine(),
                Call::WriteFile { path: path@, content: content@, mode },
                Self::reply(old(self).machine().world, Call::WriteFile { path: path@, content: content@, mode }),
                final(self).machine(),
                Answer::Done(unit_result(r)),
            ),
    ;

    /// Copies a file.
    fn copy(&mut self, src: &str, dest: &str) -> (r: Result<(), OsError>)
        ensures
            answers(
                old(self).machine(),
                Call::Copy { src: src@, dest: dest@ },
                Self::reply(old(self).machine().world, Call::Copy { src: src@, dest: dest@ }),
                final(self).machine(),
                Answer::Copied(copy_result(r)),
            ),
    ;

    /// Runs a command.
    fn subp(&mut self, argv: &Vec<String>) -> (r: Result<(), CmdError>)
        ensures
            answers(
                old(self).machine(),
                Call::Subp(texts(argv@)),
                Self::reply(old(self).machine().world, Call::Subp(texts(argv@))),
                final(self).machine(),
                Answer::Ran(cmd_result(r)),
            ),
    ;

    /// Takes up the settings in the contents of a file.
    fn read_settings(&mut self, contents: &Vec<u8>) -> (r: Result<(), String>)
        ensures
            answers(
                old(self).machine(),
                Call::ReadSettings(contents@),
                Self::reply(old(self).machine().world, Call::ReadSettings(contents@)),
                final(self).machine(),
                Answer::Done(unit_result(r)),
            ),
    ;

    /// Takes up no settings.
    fn no_settings(&mut self)
        ensures
            answers(
                old(self).machine(),
                Call::NoSettings,
                Self::reply(old(self).machine().world, Call::NoSettings),
                final(self).machine(),
                Answer::Nothing,
            ),
    ;

    /// Sets a setting to a text.
    fn set_text(&mut self, key: &str, value: &str)
        ensures
            answers(
                old(self).machine(),
                Call::SetText { key: key@, value: value@ },
                Self::reply(old(self).machine().world, Call::SetText { key: key@, value: value@ }),
                final(self).machine(),
                Answer::Nothing,
            ),
    ;

    /// Whether the settings have a section.
    fn has_section(&mut self, name: &str) -> (r: bool)
        ensures
            answers(
                old(self).machine(),
                Call::HasSection(name@),
                Self::reply(old(self).machine().world, Call::HasSection(name@)),
                final(self).machine(),
                Answer::Flag(r),
            ),
    ;

    /// Adds a section without anything in it.
    fn add_section(&mut self, name: &str)
        ensures
            answers(
                old(self).machine(),
                Call::AddSection(name@),
                Self::reply(old(self).machine().world, Call::AddSection(name@)),
                final(self).machine(),
                Answer::Nothing,
            ),
    ;

    /// Sets an option of a section.
    fn set_in_section(&mut self, name: &str, option: &str, value: &Node)
        ensures
            answers(
                old(self).machine(),
                Call::SetInSection { name: name@, option: option@, value: value@ },
                Self::reply(old(self).machine().world, Call::SetInSection { name: name@, option: option@, value: value@ }),
                final(self).machine(),
                Answer::Nothing,
            ),
    ;

    /// The settings as the contents of a file.
    fn settings_file(&mut self) -> (r: Result<Vec<u8>, String>)
        ensures
            answers(
                old(self).machine(),
                Call::SettingsFile,
                Self::reply(old(self).machine().world, Call::SettingsFile),
                final(self).machine(),
                Answer::Contents(contents_result(r)),
            ),
    ;

    /// Writes a line to the log, under the name of what it comes from.
    fn report(&mut self, level: Level, source: &str, text: &str)
        ensures
            final(self).machine() == asked(
                old(self).machine(),
                Call::Report { level, source: source@, text: text@ },
                Self::reply(old(self).machine().world, Call::Report { level, source: source@, text: text@ }).0,
            ),
    ;
}

/// A machine that the module works on.
pub type Server<H> = Machine<Call, <H as Host>::World>;

pub open spec fn ask_report<H: Host>(m: Server<H>, level: Level, source: Seq<char>, text: Seq<char>) -> Server<H> {
    let call = Call::Report { level, source, text };
    asked(m, call, H::reply(m.world, call).0)
}

/// The name under which the module writes to the log.
pub const SOURCE: &'static str = "cc_mcollective.py";

/// A line that only helps to follow what happens.
pub open spec fn logged<H: Host>(m: Server<H>, text: Seq<char>) -> Server<H> {
    ask_report::<H>(m, Level::Debug, SOURCE@, text)
}

pub fn log_debug<H: Host>(host: &mut H, text: &str)
    ensures
        final(host).machine() == logged::<H>(old(host).machine(), text@),
{
    host.report(Level::Debug, SOURCE, text);
}

pub open spec fn ask_install_packages<H: Host>(m: Server<H>, packages: Val) -> (Server<H>, Result<(), Seq<char>>) {
    let (w, a) = H::reply(m.world, Call::Install(packages));
    (asked(m, Call::Install(packages), w), a->Done_0)
}

pub open spec fn ask_load_binary_file<H: Host>(m: Server<H>, path: Seq<char>) -> (Server<H>, Result<Seq<u8>, OsFailure>) {
    let (w, a) = H::reply(m.world, Call::LoadFile(path));
    (asked(m, Call::LoadFile(path), w), a->Bytes_0)
}

pub open spec fn ask_write_file<H: Host>(m: Server<H>, path: Seq<char>, content: Seq<u8>, mode: u32) -> (Server<H>, Result<(), Seq<char>>) {
    let (w, a) = H::reply(m.world, Call::WriteFile { path, content, mode });
    (asked(m, Call::WriteFile { path, content, mode }, w), a->Done_0)
}

pub open spec fn ask_copy<H: Host>(m: Server<H>, src: Seq<char>, dest: Seq<char>) -> (Server<H>, Result<(), OsFailure>) {
    let (w, a) = H::reply(m.world, Call::Copy { src, dest });
    (asked(m, Call::Copy { src, dest }, w), a->Copied_0)
}

pub open spec fn ask_subp<H: Host>(m: Server<H>, argv: Seq<Seq<char>>) -> (Server<H>, Result<(), CmdFailed>) {
    let (w, a) = H::reply(m.world, Call::Subp(argv));
    (asked(m, Call::Subp(argv), w), a->Ran_0)
}

pub open spec fn ask_read_settings<H: Host>(m: Server<H>, contents: Seq<u8>) -> (Server<H>, Result<(), Seq<char>>) {
    let (w, a) = H::reply(m.world, Call::ReadSettings(contents));
    (asked(m, Call::ReadSettings(contents), w), a->Done_0)
}

pub open spec fn ask_no_settings<H: Host>(m: Server<H>) -> Server<H> {
    asked(m, Call::NoSettings, H::reply(m.world, Call::NoSettings).0)
}

pub open spec fn ask_set_text<H: Host>(m: Server<H>, key: Seq<char>, value: Seq<char>) -> Server<H> {
    asked(m, Call::SetText { key, value }, H::reply(m.world, Call::SetText { key, value }).0)
}

pub open spec fn ask_has_section<H: Host>(m: Server<H>, name: Seq<char>) -> (Server<H>, bool) {
    let (w, a) = H::reply(m.world, Call::HasSection(name));
    (asked(m, Call::HasSection(name), w), a->Flag_0)
}

pub open spec fn ask_add_section<H: Host>(m: Server<H>, name: Seq<char>) -> Server<H> {
    asked(m, Call::AddSection(name), H::reply(m.world, Call::AddSection(name)).0)
}

pub open spec fn ask_set_in_section<H: Host>(m: Server<H>, name: Seq<char>, option: Seq<char>, value: Val) -> Server<H> {
    asked(m, Call::SetInSection { name, option, value }, H::reply(m.world, Call::SetInSection { name, option, value }).0)
}

pub open spec fn ask_settings_file<H: Host>(m: Server<H>) -> (Server<H>, Result<Seq<u8>, Seq<char>>) {
    let (w, a) = H::reply(m.world, Call::SettingsFile);
    (asked(m, Call::SettingsFile, w), a->Contents_0)
}

// ---------------------------------------------------------------------------
// A scripted machine

/// A table from texts to numbers.
pub open spec fn number_table(t: Seq<(String, i32)>) -> Seq<(Seq<char>, i32)> {
    Seq::new(t.len(), |i: int| (t[i].0@, t[i].1))
}

/// Paths and what they hold.
pub open spec fn byte_entries(t: Seq<(String, Vec<u8>)>) -> Seq<(Seq<char>, Seq<u8>)> {
    Seq::new(t.len(), |i: int| (t[i].0@, t[i].1@))
}

fn lookup_number(table: &Vec<(String, i32)>, key: &str) -> (r: Option<i32>)
    ensures
        r == lookup(number_table(table@), key@),
{
    let ghost all = number_table(table@);
    let mut i: usize = 0;
    assert(all.skip(0) =~= all);
    while i < table.len()
        invariant
            i <= table@.len(),
            all == number_table(table@),
            lookup(all.skip(i as int), key@) == lookup(all, key@),
        decreases table.len() - i,
    {
        assert(all.skip(i as int)[0] == all[i as int]);
        assert(all.skip(i as int).skip(1) =~= all.skip(i + 1));
        if same(table[i].0.as_str(), key) {
            return Some(table[i].1);
        }
        i += 1;
    }
    None
}

/// The error with a number that a file is scripted to give.
pub open spec fn failed_file(errno: i32, path: Seq<char>) -> OsFailure {
    let name = match error_name(errno) {
        Some(name) => name,
        None => "Unknown error "@ + dec_int(errno as int),
    };
    OsFailure { errno, display: "[Errno "@ + dec_int(errno as int) + "] "@ + name + ": '"@ + path + "'"@ }
}

fn fail_file(errno: i32, path: &str) -> (r: OsError)
    ensures
        r@ == failed_file(errno, path@),
{
    let number = dec_int_of(errno as i128);
    let name = match strerror(errno) {
        Some(name) => name,
        None => cat2("Unknown error ", number.as_str()),
    };
    OsError { errno, display: cat7("[Errno ", number.as_str(), "] ", name.as_str(), ": '", path, "'") }
}

/// A machine whose every answer is set up front, and which writes down what it
/// is asked.
pub struct Fixture {
    /// What was asked, in order.
    pub calls: Vec<String>,
    /// What was written, in order.
    pub written: Vec<(String, Vec<u8>)>,
    /// Files, by path.
    pub files: Vec<(String, String)>,
    /// Files that cannot be read or copied, and the number of the error.
    pub failures: Vec<(String, i32)>,
    /// Calls that fail, by what is written down of them, and the message.
    pub errors: Vec<(String, String)>,
    /// Why no settings can be taken up, if they cannot.
    pub unreadable: Option<String>,
    /// Sections that the settings have.
    pub sections: Vec<String>,
    /// The settings as a file.
    pub rendered: String,
    /// Why the settings cannot be made a file, if they cannot.
    pub unwritable: Option<String>,
    /// What was set, in order.
    pub settings: Vec<String>,
    /// The lines of the log, in order.
    pub log: Vec<String>,
    /// The questions themselves.
    pub trace: Ghost<Seq<Call>>,
}

/// The script of a [`Fixture`] and what it wrote down.
pub struct Script {
    pub calls: Seq<Seq<char>>,
    pub written: Seq<(Seq<char>, Seq<u8>)>,
    pub files: Seq<(Seq<char>, Seq<char>)>,
    pub failures: Seq<(Seq<char>, i32)>,
    pub errors: Seq<(Seq<char>, Seq<char>)>,
    pub unreadable: Option<Seq<char>>,
    pub sections: Seq<Seq<char>>,
    pub rendered: Seq<char>,
    pub unwritable: Option<Seq<char>>,
    pub settings: Seq<Seq<char>>,
    pub log: Seq<Seq<char>>,
}

/// What a [`Fixture`] writes down when it is asked something.
pub open spec fn line(call: Call) -> Option<Seq<char>> {
    match call {
        Call::Report { level, source, text } => None,
        Call::Install(packages) => Some("install_packages "@ + repr(packages)),
        Call::LoadFile(path) => Some("load_binary_file "@ + path),
        Call::WriteFile { path, content, mode } => Some("write_file "@ + path + " mode="@ + octal4(mode as nat)),
        Call::Copy { src, dest } => Some("copy "@ + src + " "@ + dest),
        Call::Subp(argv) => Some("subp "@ + join(argv, " "@)),
        Call::ReadSettings(contents) => None,
        Call::NoSettings => None,
        Call::SetText { key, value } => None,
        Call::HasSection(name) => None,
        Call::AddSection(name) => None,
        Call::SetInSection { name, option, value } => None,
        Call::SettingsFile => None,
    }
}

/// Whether a call is scripted to fail.
pub open spec fn fails(s: Script, call: Call) -> Result<(), Seq<char>> {
    match line(call) {
        Some(text) => failure(s.errors, text),
        None => Ok(()),
    }
}

/// What a script answers.
pub open spec fn script_answer(s: Script, call: Call) -> Answer {
    match call {
        Call::Report { level, source, text } => Answer::Nothing,
        Call::Install(packages) => Answer::Done(fails(s, call)),
        Call::LoadFile(path) => Answer::Bytes(
            match lookup(s.failures, path) {
                Some(errno) => Err(failed_file(errno, path)),
                None => match lookup(s.files, path) {
                    Some(text) => Ok(encode_utf8(text)),
                    None => Err(absent(path)),
                },
            },
        ),
        Call::WriteFile { path, content, mode } => Answer::Done(fails(s, call)),
        Call::Copy { src, dest } => Answer::Copied(
            match lookup(s.failures, src) {
                Some(errno) => Err(failed_file(errno, src)),
                None => if lookup(s.files, src) is Some {
                    Ok(())
                } else {
                    Err(absent(src))
                },
            },
        ),
        Call::Subp(argv) => Answer::Ran(
            match lookup(s.errors, line(call)->0) {
                Some(e) => Err(
                    CmdFailed { command: list_text(argv), exit_code: Some(1), stdout: Seq::empty(), stderr: e },
                ),
                None => Ok(()),
            },
        ),
        Call::ReadSettings(contents) => Answer::Done(
            match s.unreadable {
                Some(e) => Err(e),
                None => Ok(()),
            },
        ),
        Call::NoSettings => Answer::Nothing,
        Call::SetText { key, value } => Answer::Nothing,
        Call::HasSection(name) => Answer::Flag(s.sections.contains(name)),
        Call::AddSection(name) => Answer::Nothing,
        Call::SetInSection { name, option, value } => Answer::Nothing,
        Call::SettingsFile => Answer::Contents(
            match s.unwritable {
                Some(e) => Err(e),
                None => Ok(encode_utf8(s.rendered)),
            },
        ),
    }
}

/// The script after it was asked.
pub open spec fn script_after(s: Script, call: Call) -> Script {
    match call {
        Call::Report { level, source, text } => Script { log: s.log.push(log_line(level, source, text)), ..s },
        _ => {
            let calls = match line(call) {
                Some(text) => s.calls.push(text),
                None => s.calls,
            };
            let next = Script { calls, ..s };
            match call {
                Call::WriteFile { path, content, mode } => Script { written: s.written.push((path, content)), ..next },
                Call::SetText { key, value } => Script { settings: s.settings.push(key + " = "@ + value), ..next },
                Call::AddSection(name) => Script {
                    sections: s.sections.push(name),
                    settings: s.settings.push("["@ + name + "]"@),
                    ..next
                },
                Call::SetInSection { name, option, value } => Script {
                    settings: s.settings.push("["@ + name + "] "@ + option + " = "@ + repr(value)),
                    ..next
                },
                _ => next,
            }
        },
    }
}

impl Fixture {
    /// The script as it is now.
    pub open spec fn script(&self) -> Script {
        Script {
            calls: texts(self.calls@),
            log: texts(self.log@),
            written: byte_entries(self.written@),
            files: text_table(self.files@),
            failures: number_table(self.failures@),
            errors: text_table(self.errors@),
            unreadable: opt_text(self.unreadable),
            sections: texts(self.sections@),
            rendered: self.rendered@,
            unwritable: opt_text(self.unwritable),
            settings: texts(self.settings@),
        }
    }

    fn record(&mut self, call: &str, Ghost(question): Ghost<Call>)
        requires
            line(question) == Some(call@),
        ensures
            final(self).script() == (Script { calls: old(self).script().calls.push(call@), ..old(self).script() }),
            final(self).trace@ == old(self).trace@.push(question),
    {
        broadcast use texts_push;
        self.calls.push(call.to_owned());
        proof {
            self.trace@ = self.trace@.push(question);
        }
    }

    fn note(&mut self, Ghost(question): Ghost<Call>)
        ensures
            final(self).script() == old(self).script(),
            final(self).trace@ == old(self).trace@.push(question),
    {
        proof {
            self.trace@ = self.trace@.push(question);
        }
    }
}

impl Default for Fixture {
    fn default() -> (r: Self)
        ensures
            r.script() == (Script {
                calls: Seq::empty(),
                log: Seq::empty(),
                written: Seq::empty(),
                files: Seq::empty(),
                failures: Seq::empty(),
                errors: Seq::empty(),
                unreadable: None,
                sections: Seq::empty(),
                rendered: Seq::empty(),
                unwritable: None,
                settings: Seq::empty(),
            }),
            r.trace@ == Seq::<Call>::empty(),
    {
        let r = Fixture {
            calls: Vec::new(),
            log: Vec::new(),
            written: Vec::new(),
            files: Vec::new(),
            failures: Vec::new(),
            errors: Vec::new(),
            unreadable: None,
            sections: Vec::new(),
            rendered: String::new(),
            unwritable: None,
            settings: Vec::new(),
            trace: Ghost(Seq::empty()),
        };
        proof {
            let w = r.script();
            assert(w.calls =~= Seq::empty());
            assert(w.log =~= Seq::empty());
            assert(w.written =~= Seq::empty());
            assert(w.files =~= Seq::empty());
            assert(w.failures =~= Seq::empty());
            assert(w.errors =~= Seq::empty());
            assert(w.sections =~= Seq::empty());
            assert(w.rendered =~= Seq::empty());
            assert(w.settings =~= Seq::empty());
        }
        r
    }
}

impl Host for Fixture {
    type World = Script;

    open spec fn machine(&self) -> Machine<Call, Script> {
        Machine { calls: self.trace@, world: self.script() }
    }

    open spec fn reply(world: Script, call: Call) -> (Script, Answer) {
        (script_after(world, call), script_answer(world, call))
    }

    fn install_packages(&mut self, packages: &Node) -> (r: Result<(), String>) {
        let call = cat2("install_packages ", repr_of(packages).as_str());
        self.record(call.as_str(), Ghost(Call::Install(packages@)));
        fail_as_scripted(&self.errors, call.as_str())
    }

    fn load_binary_file(&mut self, path: &str) -> (r: Result<Vec<u8>, OsError>) {
        let call = cat2("load_binary_file ", path);
        self.record(call.as_str(), Ghost(Call::LoadFile(path@)));
        match lookup_number(&self.failures, path) {
            Some(errno) => Err(fail_file(errno, path)),
            None => match lookup_text(&self.files, path) {
                Some(text) => Ok(text.as_str().as_bytes_vec()),
                None => Err(OsError::not_found(path)),
            },
        }
    }

    fn write_file(&mut self, path: &str, content: &Vec<u8>, mode: u32) -> (r: Result<(), String>) {
        let call = cat4("write_file ", path, " mode=", octal4_of(mode).as_str());
        self.record(call.as_str(), Ghost(Call::WriteFile { path: path@, content: content@, mode }));
        let ghost before = self.script().written;
        self.written.push((path.to_owned(), content.clone()));
        assert(self.script().written =~= before.push((path@, content@)));
        fail_as_scripted(&self.errors, call.as_str())
    }

    fn copy(&mut self, src: &str, dest: &str) -> (r: Result<(), OsError>) {
        let call = cat4("copy ", src, " ", dest);
        self.record(call.as_str(), Ghost(Call::Copy { src: src@, dest: dest@ }));
        match lookup_number(&self.failures, src) {
            Some(errno) => Err(fail_file(errno, src)),
            None => match lookup_text(&self.files, src) {
                Some(_) => Ok(()),
                None => Err(OsError::not_found(src)),
            },
        }
    }

    fn subp(&mut self, argv: &Vec<String>) -> (r: Result<(), CmdError>) {
        let call = cat2("subp ", join_with(argv, " ").as_str());
        self.record(call.as_str(), Ghost(Call::Subp(texts(argv@))));
        match lookup_text(&self.errors, call.as_str()) {
            Some(e) => {
                let none = String::new();
                assert(none@ =~= Seq::empty());
                Err(CmdError { command: py_list(argv), exit_code: Some(1), stdout: none, stderr: e })
            },
            None => Ok(()),
        }
    }

    fn read_settings(&mut self, contents: &Vec<u8>) -> (r: Result<(), String>) {
        self.note(Ghost(Call::ReadSettings(contents@)));
        match &self.unreadable {
            Some(e) => Err(e.clone()),
            None => Ok(()),
        }
    }

    fn no_settings(&mut self) {
        self.note(Ghost(Call::NoSettings));
    }

    fn set_text(&mut self, key: &str, value: &str) {
        broadcast use texts_push;
        self.note(Ghost(Call::SetText { key: key@, value: value@ }));
        self.settings.push(cat3(key, " = ", value));
    }

    fn has_section(&mut self, name: &str) -> (r: bool) {
        self.note(Ghost(Call::HasSection(name@)));
        has_text(&self.sections, name)
    }

    fn add_section(&mut self, name: &str) {
        broadcast use texts_push;
        self.note(Ghost(Call::AddSection(name@)));
        self.sections.push(name.to_owned());
        self.settings.push(cat3("[", name, "]"));
    }

    fn set_in_section(&mut self, name: &str, option: &str, value: &Node) {
        broadcast use texts_push;
        self.note(Ghost(Call::SetInSection { name: name@, option: option@, value: value@ }));
        self.settings.push(cat6("[", name, "] ", option, " = ", repr_of(value).as_str()));
    }

    fn settings_file(&mut self) -> (r: Result<Vec<u8>, String>) {
        self.note(Ghost(Call::SettingsFile));
        match &self.unwritable {
            Some(e) => Err(e.clone()),
            None => Ok(self.rendered.as_str().as_bytes_vec()),
        }
    }

    fn report(&mut self, level: Level, source: &str, text: &str) {
        broadcast use texts_push;
        self.log.push(log_line_of(level, source, text));
        proof {
            self.trace@ = self.trace@.push(Call::Report { level, source: source@, text: text@ });
        }
    }
}

}
