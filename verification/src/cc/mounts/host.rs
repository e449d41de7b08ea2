//! What setting up mounts and swap asks of the machine.

use vstd::prelude::*;

use crate::cc::{fail_as_scripted, failure, unit_result};
use crate::machine::{answers, asked, lookup, lookup_text, text_table, Machine};
use crate::number::{dec, dec_of};
use crate::paths::{basename, last_name};
use crate::text::{cat2, has_text, join, join_with, opt_text, same, texts, texts_push};

verus! {

/// How a swap file is laid down.
#[derive(Debug, Clone, Copy, PartialEq, Eq, Structural)]
pub enum SwapMethod {
    /// `fallocate`, and `dd` where that fails.
    Fallocate,
    /// `dd` alone.
    Dd,
}

/// The name of a way to lay down a swap file.
pub open spec fn method_name(method: SwapMethod) -> Seq<char> {
    match method {
        SwapMethod::Fallocate => "fallocate"@,
        SwapMethod::Dd => "dd"@,
    }
}

impl SwapMethod {
    pub fn name(self) -> (r: &'static str)
        ensures
            r@ == method_name(self),
    {
        match self {
            SwapMethod::Fallocate => "fallocate",
            SwapMethod::Dd => "dd",
        }
    }
}

/// One thing to do, in order. Messages stand among the others because they come
/// between them.
#[derive(Debug, Clone, PartialEq, Eq)]
pub enum Step {
    Debug(String),
    Warning(String),
    Info(String),
    /// Make a directory, or fail.
    EnsureDir(String),
    /// Make a directory if that can be done.
    EnsureConfigDir(String),
    /// Make a file that is never copied on write.
    BtrfsPrepare(String),
    /// Lay down a swap file of a size in mebibytes.
    CreateSwap { path: String, mib: String, method: SwapMethod, fstype: String },
    /// Let only the owner read and write a swap file.
    ChmodSwap(String),
    Mkswap(String),
    /// Write the file system table.
    WriteFstab(String),
    SwapOn,
    /// Mount everything, where something changed or a directory is not mounted.
    MountAll { daemon_reload: bool, changes_made: bool, dirs: Vec<String> },
}

pub enum StepSpec {
    Debug(Seq<char>),
    Warning(Seq<char>),
    Info(Seq<char>),
    EnsureDir(Seq<char>),
    EnsureConfigDir(Seq<char>),
    BtrfsPrepare(Seq<char>),
    CreateSwap { path: Seq<char>, mib: Seq<char>, method: SwapMethod, fstype: Seq<char> },
    ChmodSwap(Seq<char>),
    Mkswap(Seq<char>),
    WriteFstab(Seq<char>),
    SwapOn,
    MountAll { daemon_reload: bool, changes_made: bool, dirs: Seq<Seq<char>> },
}

impl View for Step {
    type V = StepSpec;

    open spec fn view(&self) -> StepSpec {
        match self {
            Step::Debug(text) => StepSpec::Debug(text@),
            Step::Warning(text) => StepSpec::Warning(text@),
            Step::Info(text) => StepSpec::Info(text@),
            Step::EnsureDir(path) => StepSpec::EnsureDir(path@),
            Step::EnsureConfigDir(path) => StepSpec::EnsureConfigDir(path@),
            Step::BtrfsPrepare(path) => StepSpec::BtrfsPrepare(path@),
            Step::CreateSwap { path, mib, method, fstype } => StepSpec::CreateSwap {
                path: path@,
                mib: mib@,
                method: *method,
                fstype: fstype@,
            },
            Step::ChmodSwap(path) => StepSpec::ChmodSwap(path@),
            Step::Mkswap(path) => StepSpec::Mkswap(path@),
            Step::WriteFstab(text) => StepSpec::WriteFstab(text@),
            Step::SwapOn => StepSpec::SwapOn,
            Step::MountAll { daemon_reload, changes_made, dirs } => StepSpec::MountAll {
                daemon_reload: *daemon_reload,
                changes_made: *changes_made,
                dirs: texts(dirs@),
            },
        }
    }
}

/// What is known of the machine and of the file system that the swap file goes to.
#[derive(Debug, Default, Clone, PartialEq, Eq)]
pub struct SwapEnv {
    /// The file system's type.
    pub fstype: Option<String>,
    /// The kernel's version.
    pub kernel_version: Vec<u32>,
    /// How much memory there is.
    pub memtotal: Option<u64>,
    /// How much room there is on the file system.
    pub available: Option<u64>,
}

pub struct SwapFacts {
    pub fstype: Option<Seq<char>>,
    pub kernel_version: Seq<u32>,
    pub memtotal: Option<u64>,
    pub available: Option<u64>,
}

impl View for SwapEnv {
    type V = SwapFacts;

    open spec fn view(&self) -> SwapFacts {
        SwapFacts {
            fstype: opt_text(self.fstype),
            kernel_version: self.kernel_version@,
            memtotal: self.memtotal,
            available: self.available,
        }
    }
}

/// Nothing known.
pub open spec fn no_facts() -> SwapFacts {
    SwapFacts { fstype: None, kernel_version: Seq::empty(), memtotal: None, available: None }
}

pub open spec fn size_result(r: Result<u64, String>) -> Result<u64, Seq<char>> {
    match r {
        Ok(n) => Ok(n),
        Err(e) => Err(e@),
    }
}

/// A question to the machine.
pub enum Call {
    Exists(Seq<char>),
    RealName(Seq<char>),
    ReadFile(Seq<char>),
    Bytes(Seq<char>),
    Quarter(u64),
    Ninety(u64),
    OverNinety { size: u64, whole: u64 },
    Root(u64),
    Megabytes(u64),
    SwapFacts(Seq<char>),
    UsesSystemd,
    Report(StepSpec),
    EnsureDir(Seq<char>),
    Chmod(Seq<char>),
    Subp(Seq<Seq<char>>),
    RemoveFile(Seq<char>),
    WriteFile { path: Seq<char>, content: Seq<char> },
    IsMounted(Seq<char>),
}

/// The machine's answer to a question.
pub enum Answer {
    Nothing,
    Done(Result<(), Seq<char>>),
    Flag(bool),
    Text(Seq<char>),
    Found(Option<Seq<char>>),
    Number(u64),
    Size(Result<u64, Seq<char>>),
    Facts(SwapFacts),
}

/// Everything that setting up mounts and swap asks of the machine.
///
/// A machine is a state and a rule: [`Host::reply`] gives, for a state and a
/// call, the next state and the answer.
pub trait Host: Sized {
    type World;

    spec fn machine(&self) -> Machine<Call, Self::World>;

    spec fn reply(world: Self::World, call: Call) -> (Self::World, Answer);

    /// Whether a path exists.
    fn path_exists(&mut self, path: &str) -> (r: bool)
        ensures
            answers(
                old(self).machine(),
                Call::Exists(path@),
                Self::reply(old(self).machine().world, Call::Exists(path@)),
                final(self).machine(),
                Answer::Flag(r),
            ),
    ;

    /// The last name of a path, once its links are followed.
    fn real_name(&mut self, path: &str) -> (r: String)
        ensures
            answers(
                old(self).machine(),
                Call::RealName(path@),
                Self::reply(old(self).machine().world, Call::RealName(path@)),
                final(self).machine(),
                Answer::Text(r@),
            ),
    ;

    /// The text of a file, if it can be read.
    fn read_file(&mut self, path: &str) -> (r: Option<String>)
        ensures
            answers(
                old(self).machine(),
                Call::ReadFile(path@),
                Self::reply(old(self).machine().world, Call::ReadFile(path@)),
                final(self).machine(),
                Answer::Found(opt_text(r)),
            ),
    ;

    /// The number of bytes that a text with a unit stands for.
    fn human2bytes(&mut self, text: &str) -> (r: Result<u64, String>)
        ensures
            answers(
                old(self).machine(),
                Call::Bytes(text@),
                Self::reply(old(self).machine().world, Call::Bytes(text@)),
                final(self).machine(),
                Answer::Size(size_result(r)),
            ),
    ;

    /// A quarter of a size, as far as a floating-point number can hold it.
    fn quarter(&mut self, size: u64) -> (r: u64)
        ensures
            answers(
                old(self).machine(),
                Call::Quarter(size),
                Self::reply(old(self).machine().world, Call::Quarter(size)),
                final(self).machine(),
                Answer::Number(r),
            ),
    ;

    /// Nine tenths of a size, as far as a floating-point number can hold them.
    fn ninety(&mut self, size: u64) -> (r: u64)
        ensures
            answers(
                old(self).machine(),
                Call::Ninety(size),
                Self::reply(old(self).machine().world, Call::Ninety(size)),
                final(self).machine(),
                Answer::Number(r),
            ),
    ;

    /// Whether a size is over nine tenths of another, as floating-point numbers.
    fn over_ninety(&mut self, size: u64, whole: u64) -> (r: bool)
        ensures
            answers(
                old(self).machine(),
                Call::OverNinety { size, whole },
                Self::reply(old(self).machine().world, Call::OverNinety { size, whole }),
                final(self).machine(),
                Answer::Flag(r),
            ),
    ;

    /// The square root of a size in gigabytes, rounded, halves to the even side.
    fn root_gigabytes(&mut self, size: u64) -> (r: u64)
        ensures
            answers(
                old(self).machine(),
                Call::Root(size),
                Self::reply(old(self).machine().world, Call::Root(size)),
                final(self).machine(),
                Answer::Number(r),
            ),
    ;

    /// A size in megabytes as a floating-point number is printed.
    fn megabytes(&mut self, size: u64) -> (r: String)
        ensures
            answers(
                old(self).machine(),
                Call::Megabytes(size),
                Self::reply(old(self).machine().world, Call::Megabytes(size)),
                final(self).machine(),
                Answer::Text(r@),
            ),
    ;

    /// What is known of the machine and of the file system that a directory is on.
    fn swap_facts(&mut self, directory: &str) -> (r: SwapEnv)
        ensures
            answers(
                old(self).machine(),
                Call::SwapFacts(directory@),
                Self::reply(old(self).machine().world, Call::SwapFacts(directory@)),
                final(self).machine(),
                Answer::Facts(r@),
            ),
    ;

    /// Whether systemd runs the system.
    fn uses_systemd(&mut self) -> (r: bool)
        ensures
            answers(
                old(self).machine(),
                Call::UsesSystemd,
                Self::reply(old(self).machine().world, Call::UsesSystemd),
                final(self).machine(),
                Answer::Flag(r),
            ),
    ;

    /// Reports a message.
    fn report(&mut self, step: &Step)
        ensures
            answers(
                old(self).machine(),
                Call::Report(step@),
                Self::reply(old(self).machine().world, Call::Report(step@)),
                final(self).machine(),
                Answer::Nothing,
            ),
    ;

    /// Makes a directory and those above it.
    fn ensure_dir(&mut self, path: &str) -> (r: Result<(), String>)
        ensures
            answers(
                old(self).machine(),
                Call::EnsureDir(path@),
                Self::reply(old(self).machine().world, Call::EnsureDir(path@)),
                final(self).machine(),
                Answer::Done(unit_result(r)),
            ),
    ;

    /// Lets only the owner read and write a file, if it is there.
    fn chmod(&mut self, path: &str) -> (r: Result<(), String>)
        ensures
            answers(
                old(self).machine(),
                Call::Chmod(path@),
                Self::reply(old(self).machine().world, Call::Chmod(path@)),
                final(self).machine(),
                Answer::Done(unit_result(r)),
            ),
    ;

    /// Runs a command.
    fn subp(&mut self, argv: &Vec<String>) -> (r: Result<(), String>)
        ensures
            answers(
                old(self).machine(),
                Call::Subp(texts(argv@)),
                Self::reply(old(self).machine().world, Call::Subp(texts(argv@))),
                final(self).machine(),
                Answer::Done(unit_result(r)),
            ),
    ;

    /// Removes a file, if that can be done.
    fn remove_file(&mut self, path: &str)
        ensures
            answers(
                old(self).machine(),
                Call::RemoveFile(path@),
                Self::reply(old(self).machine().world, Call::RemoveFile(path@)),
                final(self).machine(),
                Answer::Nothing,
            ),
    ;

    /// Writes a file.
    fn write_file(&mut self, path: &str, content: &str) -> (r: Result<(), String>)
        ensures
            answers(
                old(self).machine(),
                Call::WriteFile { path: path@, content: content@ },
                Self::reply(old(self).machine().world, Call::WriteFile { path: path@, content: content@ }),
                final(self).machine(),
                Answer::Done(unit_result(r)),
            ),
    ;

    /// Whether something is mounted on a directory.
    fn is_mounted(&mut self, path: &str) -> (r: bool)
        ensures
            answers(
                old(self).machine(),
                Call::IsMounted(path@),
                Self::reply(old(self).machine().world, Call::IsMounted(path@)),
                final(self).machine(),
                Answer::Flag(r),
            ),
    ;
}

/// A machine that the module works on.
pub type Table<H> = Machine<Call, <H as Host>::World>;

pub open spec fn ask_path_exists<H: Host>(m: Table<H>, path: Seq<char>) -> (Table<H>, bool) {
    let (w, a) = H::reply(m.world, Call::Exists(path));
    (asked(m, Call::Exists(path), w), a->Flag_0)
}

pub open spec fn ask_real_name<H: Host>(m: Table<H>, path: Seq<char>) -> (Table<H>, Seq<char>) {
    let (w, a) = H::reply(m.world, Call::RealName(path));
    (asked(m, Call::RealName(path), w), a->Text_0)
}

pub open spec fn ask_read_file<H: Host>(m: Table<H>, path: Seq<char>) -> (Table<H>, Option<Seq<char>>) {
    let (w, a) = H::reply(m.world, Call::ReadFile(path));
    (asked(m, Call::ReadFile(path), w), a->Found_0)
}

pub open spec fn ask_human2bytes<H: Host>(m: Table<H>, text: Seq<char>) -> (Table<H>, Result<u64, Seq<char>>) {
    let (w, a) = H::reply(m.world, Call::Bytes(text));
    (asked(m, Call::Bytes(text), w), a->Size_0)
}

pub open spec fn ask_quarter<H: Host>(m: Table<H>, size: u64) -> (Table<H>, u64) {
    let (w, a) = H::reply(m.world, Call::Quarter(size));
    (asked(m, Call::Quarter(size), w), a->Number_0)
}

pub open spec fn ask_ninety<H: Host>(m: Table<H>, size: u64) -> (Table<H>, u64) {
    let (w, a) = H::reply(m.world, Call::Ninety(size));
    (asked(m, Call::Ninety(size), w), a->Number_0)
}

pub open spec fn ask_over_ninety<H: Host>(m: Table<H>, size: u64, whole: u64) -> (Table<H>, bool) {
    let (w, a) = H::reply(m.world, Call::OverNinety { size, whole });
    (asked(m, Call::OverNinety { size, whole }, w), a->Flag_0)
}

pub open spec fn ask_root_gigabytes<H: Host>(m: Table<H>, size: u64) -> (Table<H>, u64) {
    let (w, a) = H::reply(m.world, Call::Root(size));
    (asked(m, Call::Root(size), w), a->Number_0)
}

pub open spec fn ask_megabytes<H: Host>(m: Table<H>, size: u64) -> (Table<H>, Seq<char>) {
    let (w, a) = H::reply(m.world, Call::Megabytes(size));
    (asked(m, Call::Megabytes(size), w), a->Text_0)
}

pub open spec fn ask_swap_facts<H: Host>(m: Table<H>, directory: Seq<char>) -> (Table<H>, SwapFacts) {
    let (w, a) = H::reply(m.world, Call::SwapFacts(directory));
    (asked(m, Call::SwapFacts(directory), w), a->Facts_0)
}

pub open spec fn ask_uses_systemd<H: Host>(m: Table<H>) -> (Table<H>, bool) {
    let (w, a) = H::reply(m.world, Call::UsesSystemd);
    (asked(m, Call::UsesSystemd, w), a->Flag_0)
}

pub open spec fn ask_report<H: Host>(m: Table<H>, step: StepSpec) -> Table<H> {
    asked(m, Call::Report(step), H::reply(m.world, Call::Report(step)).0)
}

pub open spec fn ask_ensure_dir<H: Host>(m: Table<H>, path: Seq<char>) -> (Table<H>, Result<(), Seq<char>>) {
    let (w, a) = H::reply(m.world, Call::EnsureDir(path));
    (asked(m, Call::EnsureDir(path), w), a->Done_0)
}

pub open spec fn ask_chmod<H: Host>(m: Table<H>, path: Seq<char>) -> (Table<H>, Result<(), Seq<char>>) {
    let (w, a) = H::reply(m.world, Call::Chmod(path));
    (asked(m, Call::Chmod(path), w), a->Done_0)
}

pub open spec fn ask_subp<H: Host>(m: Table<H>, argv: Seq<Seq<char>>) -> (Table<H>, Result<(), Seq<char>>) {
    let (w, a) = H::reply(m.world, Call::Subp(argv));
    (asked(m, Call::Subp(argv), w), a->Done_0)
}

pub open spec fn ask_remove_file<H: Host>(m: Table<H>, path: Seq<char>) -> Table<H> {
    asked(m, Call::RemoveFile(path), H::reply(m.world, Call::RemoveFile(path)).0)
}

pub open spec fn ask_write_file<H: Host>(m: Table<H>, path: Seq<char>, content: Seq<char>) -> (Table<H>, Result<(), Seq<char>>) {
    let (w, a) = H::reply(m.world, Call::WriteFile { path, content });
    (asked(m, Call::WriteFile { path, content }, w), a->Done_0)
}

pub open spec fn ask_is_mounted<H: Host>(m: Table<H>, path: Seq<char>) -> (Table<H>, bool) {
    let (w, a) = H::reply(m.world, Call::IsMounted(path));
    (asked(m, Call::IsMounted(path), w), a->Flag_0)
}

// ---------------------------------------------------------------------------
// A scripted machine

/// A table from texts to numbers.
pub open spec fn number_table(t: Seq<(String, u64)>) -> Seq<(Seq<char>, u64)> {
    Seq::new(t.len(), |i: int| (t[i].0@, t[i].1))
}

/// A table from numbers to texts.
pub open spec fn print_table(t: Seq<(u64, String)>) -> Seq<(u64, Seq<char>)> {
    Seq::new(t.len(), |i: int| (t[i].0, t[i].1@))
}

/// What a table has for a number.
pub open spec fn at_number<T>(t: Seq<(u64, T)>, key: u64) -> Option<T>
    decreases t.len(),
{
    if t.len() == 0 {
        None
    } else if t[0].0 == key {
        Some(t[0].1)
    } else {
        at_number(t.skip(1), key)
    }
}

fn lookup_size(table: &Vec<(String, u64)>, key: &str) -> (r: Option<u64>)
    ensures
        r == lookup(number_table(table@), key@),
{
    let ghost all = number_table(table@);
    let mut i: usize = 0;
    assert(all.skip(0) =~= all);
    while i < table.len()
        invariant
            i <= table@.len(),
            all == number_table(table@),
            lookup(all.skip(i as int), key@) == lookup(all, key@),
        decreases table.len() - i,
    {
        assert(all.skip(i as int)[0] == all[i as int]);
        assert(all.skip(i as int).skip(1) =~= all.skip(i + 1));
        if same(table[i].0.as_str(), key) {
            return Some(table[i].1);
        }
        i += 1;
    }
    None
}

fn lookup_root(table: &Vec<(u64, u64)>, key: u64) -> (r: Option<u64>)
    ensures
        r == at_number(table@, key),
{
    let ghost all = table@;
    let mut i: usize = 0;
    assert(all.skip(0) =~= all);
    while i < table.len()
        invariant
            i <= table@.len(),
            all == table@,
            at_number(all.skip(i as int), key) == at_number(all, key),
        decreases table.len() - i,
    {
        assert(all.skip(i as int)[0] == all[i as int]);
        assert(all.skip(i as int).skip(1) =~= all.skip(i + 1));
        if table[i].0 == key {
            return Some(table[i].1);
        }
        i += 1;
    }
    None
}

fn lookup_print(table: &Vec<(u64, String)>, key: u64) -> (r: Option<String>)
    ensures
        opt_text(r) == at_number(print_table(table@), key),
{
    let ghost all = print_table(table@);
    let mut i: usize = 0;
    assert(all.skip(0) =~= all);
    while i < table.len()
        invariant
            i <= table@.len(),
            all == print_table(table@),
            at_number(all.skip(i as int), key) == at_number(all, key),
        decreases table.len() - i,
    {
        assert(all.skip(i as int)[0] == all[i as int]);
        assert(all.skip(i as int).skip(1) =~= all.skip(i + 1));
        if table[i].0 == key {
            return Some(table[i].1.clone());
        }
        i += 1;
    }
    None
}

/// A machine whose every answer is set up front, and which writes down what it
/// is asked.
pub struct Fixture {
    /// Paths that exist.
    pub paths: Vec<String>,
    /// The last names of paths whose links lead elsewhere.
    pub names: Vec<(String, String)>,
    /// Files that can be read, with what is in them.
    pub files: Vec<(String, String)>,
    /// The numbers of bytes that texts stand for.
    pub sizes: Vec<(String, u64)>,
    /// Square roots of sizes.
    pub roots: Vec<(u64, u64)>,
    /// How sizes are printed.
    pub prints: Vec<(u64, String)>,
    /// What is known for swap.
    pub env: SwapEnv,
    pub systemd: bool,
    /// Directories that something is mounted on.
    pub mounted: Vec<String>,
    /// Calls that fail, by what is written down of them, and the message.
    pub errors: Vec<(String, String)>,
    /// What was asked, in order.
    pub calls: Vec<String>,
    /// What was written, in order.
    pub written: Vec<(String, String)>,
    /// The questions themselves.
    pub trace: Ghost<Seq<Call>>,
}

/// The script of a [`Fixture`] and what it wrote down.
pub struct Script {
    pub paths: Seq<Seq<char>>,
    pub names: Seq<(Seq<char>, Seq<char>)>,
    pub files: Seq<(Seq<char>, Seq<char>)>,
    pub sizes: Seq<(Seq<char>, u64)>,
    pub roots: Seq<(u64, u64)>,
    pub prints: Seq<(u64, Seq<char>)>,
    pub env: SwapFacts,
    pub systemd: bool,
    pub mounted: Seq<Seq<char>>,
    pub errors: Seq<(Seq<char>, Seq<char>)>,
    pub calls: Seq<Seq<char>>,
    pub written: Seq<(Seq<char>, Seq<char>)>,
}

/// What a [`Fixture`] writes down when it is asked something.
pub open spec fn line(call: Call) -> Option<Seq<char>> {
    match call {
        Call::EnsureDir(path) => Some("ensure_dir "@ + path),
        Call::Chmod(path) => Some("chmod "@ + path),
        Call::Subp(argv) => Some("subp "@ + join(argv, " "@)),
        Call::RemoveFile(path) => Some("remove "@ + path),
        Call::WriteFile { path, content } => Some("write "@ + path),
        _ => None,
    }
}

/// Whether a call is scripted to fail.
pub open spec fn fails(s: Script, call: Call) -> Result<(), Seq<char>> {
    match line(call) {
        Some(text) => failure(s.errors, text),
        None => Ok(()),
    }
}

/// What a script answers.
pub open spec fn script_answer(s: Script, call: Call) -> Answer {
    match call {
        Call::Exists(path) => Answer::Flag(s.paths.contains(path)),
        Call::RealName(path) => Answer::Text(
            match lookup(s.names, path) {
                Some(name) => name,
                None => last_name(path),
            },
        ),
        Call::ReadFile(path) => Answer::Found(lookup(s.files, path)),
        Call::Bytes(text) => Answer::Size(
            match lookup(s.sizes, text) {
                Some(n) => Ok(n),
                None => Err("'"@ + text + "' is not valid input."@),
            },
        ),
        Call::Quarter(size) => Answer::Number(size / 4),
        Call::Ninety(size) => Answer::Number((size as int * 9 / 10) as u64),
        Call::OverNinety { size, whole } => Answer::Flag(size * 10 > whole * 9),
        Call::Root(size) => Answer::Number(
            match at_number(s.roots, size) {
                Some(n) => n,
                None => 0,
            },
        ),
        Call::Megabytes(size) => Answer::Text(
            match at_number(s.prints, size) {
                Some(text) => text,
                None => dec(size as nat),
            },
        ),
        Call::SwapFacts(directory) => Answer::Facts(s.env),
        Call::UsesSystemd => Answer::Flag(s.systemd),
        Call::Report(step) => Answer::Nothing,
        Call::RemoveFile(path) => Answer::Nothing,
        Call::IsMounted(path) => Answer::Flag(s.mounted.contains(path)),
        _ => Answer::Done(fails(s, call)),
    }
}

/// The script after it was asked: it wrote down the call, and what a file was to
/// hold.
pub open spec fn script_after(s: Script, call: Call) -> Script {
    let calls = match line(call) {
        Some(text) => s.calls.push(text),
        None => s.calls,
    };
    match call {
        Call::WriteFile { path, content } => Script { calls, written: s.written.push((path, content)), ..s },
        _ => Script { calls, ..s },
    }
}

impl Fixture {
    /// The script as it is now.
    pub open spec fn script(&self) -> Script {
        Script {
            paths: texts(self.paths@),
            names: text_table(self.names@),
            files: text_table(self.files@),
            sizes: number_table(self.sizes@),
            roots: self.roots@,
            prints: print_table(self.prints@),
            env: self.env@,
            systemd: self.systemd,
            mounted: texts(self.mounted@),
            errors: text_table(self.errors@),
            calls: texts(self.calls@),
            written: text_table(self.written@),
        }
    }

    fn record(&mut self, call: &str, Ghost(question): Ghost<Call>)
        requires
            line(question) == Some(call@),
        ensures
            final(self).script() == (Script { calls: old(self).script().calls.push(call@), ..old(self).script() }),
            final(self).trace@ == old(self).trace@.push(question),
    {
        broadcast use texts_push;
        self.calls.push(call.to_owned());
        proof {
            self.trace@ = self.trace@.push(question);
        }
    }

    fn note(&mut self, Ghost(question): Ghost<Call>)
        ensures
            final(self).script() == old(self).script(),
            final(self).trace@ == old(self).trace@.push(question),
    {
        proof {
            self.trace@ = self.trace@.push(question);
        }
    }
}

/// A record of nothing known.
pub fn nothing_known() -> (r: SwapEnv)
    ensures
        r@ == no_facts(),
{
    let r = SwapEnv { fstype: None, kernel_version: Vec::new(), memtotal: None, available: None };
    assert(r@.kernel_version =~= Seq::empty());
    r
}

fn copy_env(env: &SwapEnv) -> (r: SwapEnv)
    ensures
        r@ == env@,
{
    let mut version: Vec<u32> = Vec::new();
    let mut i: usize = 0;
    while i < env.kernel_version.len()
        invariant
            i <= env.kernel_version@.len(),
            version@ == env.kernel_version@.take(i as int),
        decreases env.kernel_version.len() - i,
    {
        version.push(env.kernel_version[i]);
        i += 1;
    }
    assert(version@ =~= env.kernel_version@);
    let fstype = match &env.fstype {
        Some(s) => Some(s.clone()),
        None => None,
    };
    SwapEnv { fstype, kernel_version: version, memtotal: env.memtotal, available: env.available }
}

impl Default for Fixture {
    fn default() -> (r: Self)
        ensures
            r.script() == (Script {
                paths: Seq::empty(),
                names: Seq::empty(),
                files: Seq::empty(),
                sizes: Seq::empty(),
                roots: Seq::empty(),
                prints: Seq::empty(),
                env: no_facts(),
                systemd: false,
                mounted: Seq::empty(),
                errors: Seq::empty(),
                calls: Seq::empty(),
                written: Seq::empty(),
            }),
            r.trace@ == Seq::<Call>::empty(),
    {
        let r = Fixture {
            paths: Vec::new(),
            names: Vec::new(),
            files: Vec::new(),
            sizes: Vec::new(),
            roots: Vec::new(),
            prints: Vec::new(),
            env: nothing_known(),
            systemd: false,
            mounted: Vec::new(),
            errors: Vec::new(),
            calls: Vec::new(),
            written: Vec::new(),
            trace: Ghost(Seq::empty()),
        };
        proof {
            let w = r.script();
            assert(w.paths =~= Seq::empty());
            assert(w.names =~= Seq::empty());
            assert(w.files =~= Seq::empty());
            assert(w.sizes =~= Seq::empty());
            assert(w.roots =~= Seq::empty());
            assert(w.prints =~= Seq::empty());
            assert(w.mounted =~= Seq::empty());
            assert(w.errors =~= Seq::empty());
            assert(w.calls =~= Seq::empty());
            assert(w.written =~= Seq::empty());
        }
        r
    }
}

impl Host for Fixture {
    type World = Script;

    open spec fn machine(&self) -> Machine<Call, Script> {
        Machine { calls: self.trace@, world: self.script() }
    }

    open spec fn reply(world: Script, call: Call) -> (Script, Answer) {
        (script_after(world, call), script_answer(world, call))
    }

    fn path_exists(&mut self, path: &str) -> (r: bool) {
        self.note(Ghost(Call::Exists(path@)));
        has_text(&self.paths, path)
    }

    fn real_name(&mut self, path: &str) -> (r: String) {
        self.note(Ghost(Call::RealName(path@)));
        match lookup_text(&self.names, path) {
            Some(name) => name,
            None => basename(path),
        }
    }

    fn read_file(&mut self, path: &str) -> (r: Option<String>) {
        self.note(Ghost(Call::ReadFile(path@)));
        lookup_text(&self.files, path)
    }

    fn human2bytes(&mut self, text: &str) -> (r: Result<u64, String>) {
        self.note(Ghost(Call::Bytes(text@)));
        match lookup_size(&self.sizes, text) {
            Some(n) => Ok(n),
            None => Err(crate::text::cat3("'", text, "' is not valid input.")),
        }
    }

    fn quarter(&mut self, size: u64) -> (r: u64) {
        self.note(Ghost(Call::Quarter(size)));
        size / 4
    }

    fn ninety(&mut self, size: u64) -> (r: u64) {
        self.note(Ghost(Call::Ninety(size)));
        (size as u128 * 9 / 10) as u64
    }

    fn over_ninety(&mut self, size: u64, whole: u64) -> (r: bool) {
        self.note(Ghost(Call::OverNinety { size, whole }));
        size as u128 * 10 > whole as u128 * 9
    }

    fn root_gigabytes(&mut self, size: u64) -> (r: u64) {
        self.note(Ghost(Call::Root(size)));
        match lookup_root(&self.roots, size) {
            Some(n) => n,
            None => 0,
        }
    }

    fn megabytes(&mut self, size: u64) -> (r: String) {
        self.note(Ghost(Call::Megabytes(size)));
        match lookup_print(&self.prints, size) {
            Some(text) => text,
            None => dec_of(size as u128),
        }
    }

    fn swap_facts(&mut self, directory: &str) -> (r: SwapEnv) {
        self.note(Ghost(Call::SwapFacts(directory@)));
        copy_env(&self.env)
    }

    fn uses_systemd(&mut self) -> (r: bool) {
        self.note(Ghost(Call::UsesSystemd));
        self.systemd
    }

    fn report(&mut self, step: &Step) {
        self.note(Ghost(Call::Report(step@)));
    }

    fn ensure_dir(&mut self, path: &str) -> (r: Result<(), String>) {
        let call = cat2("ensure_dir ", path);
        self.record(call.as_str(), Ghost(Call::EnsureDir(path@)));
        fail_as_scripted(&self.errors, call.as_str())
    }

    fn chmod(&mut self, path: &str) -> (r: Result<(), String>) {
        let call = cat2("chmod ", path);
        self.record(call.as_str(), Ghost(Call::Chmod(path@)));
        fail_as_scripted(&self.errors, call.as_str())
    }

    fn subp(&mut self, argv: &Vec<String>) -> (r: Result<(), String>) {
        let call = cat2("subp ", join_with(argv, " ").as_str());
        self.record(call.as_str(), Ghost(Call::Subp(texts(argv@))));
        fail_as_scripted(&self.errors, call.as_str())
    }

    fn remove_file(&mut self, path: &str) {
        self.record(cat2("remove ", path).as_str(), Ghost(Call::RemoveFile(path@)));
    }

    fn write_file(&mut self, path: &str, content: &str) -> (r: Result<(), String>) {
        let call = cat2("write ", path);
        let ghost before = self.script().written;
        self.record(call.as_str(), Ghost(Call::WriteFile { path: path@, content: content@ }));
        self.written.push((path.to_owned(), content.to_owned()));
        assert(self.script().written =~= before.push((path@, content@)));
        fail_as_scripted(&self.errors, call.as_str())
    }

    fn is_mounted(&mut self, path: &str) -> (r: bool) {
        self.note(Ghost(Call::IsMounted(path@)));
        has_text(&self.mounted, path)
    }
}

}
