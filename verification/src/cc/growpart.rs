//! Growing partitions to fill their disks.

use vstd::prelude::*;

use crate::cc::growpart::devices::{outcomes, resize_name, rounds, rows_result, Row};
use crate::cc::growpart::host::{ask_is_file, ask_report, informed, log_debug, log_info, log_warn, logged, warned, Grown};
use crate::cc::growpart::resize::{choose_tool, NoTool};
use crate::cc::{cfg_option_list, option_items};
use crate::machine::{lookup, Level};
use crate::number::{dec_int, dec_int_of};
use crate::show::{is_false, py_str, quoted, repr_str, show, switched_off};
use crate::space::{trim_end, trim_end_of, Class};
use crate::text::{cat2, cat3, cat4, cat7, copy_strings, join, join_with, replace, replaced, same, texts, texts_push};
use crate::value::{get, vals, Node, Object, Val};

pub mod host;
pub mod kept;
pub mod laws;
pub mod devices;
pub mod resize;
pub mod single_use;

pub use crate::cc::growpart::devices::{resize_devices, Outcome, Resize};
pub use crate::cc::growpart::host::{Fixture, Host};
pub use crate::cc::growpart::resize::{resizer_factory, FactoryError, Resizer};

verus! {

/// A command that did not end well.
#[derive(Debug, Clone, PartialEq, Eq)]
pub struct ProcError {
    pub argv: Vec<String>,
    /// The exit code; there is none where the command never ran.
    pub exit_code: Option<i32>,
    pub stdout: String,
    pub stderr: String,
}

/// The mathematical form of a [`ProcError`].
pub struct Failed {
    pub argv: Seq<Seq<char>>,
    pub exit_code: Option<int>,
    pub stdout: Seq<char>,
    pub stderr: Seq<char>,
}

impl View for ProcError {
    type V = Failed;

    open spec fn view(&self) -> Failed {
        Failed {
            argv: texts(self.argv@),
            exit_code: match self.exit_code {
                Some(code) => Some(code as int),
                None => None,
            },
            stdout: self.stdout@,
            stderr: self.stderr@,
        }
    }
}

/// What happened to a device that did not open.
#[derive(Debug, Clone, PartialEq, Eq)]
pub enum OpenError {
    /// It is not there.
    NotFound,
    /// Anything else, with the message.
    Other(String),
}

/// The mathematical form of an [`OpenError`].
pub enum OpenFailure {
    NotFound,
    Other(Seq<char>),
}

impl View for OpenError {
    type V = OpenFailure;

    open spec fn view(&self) -> OpenFailure {
        match self {
            OpenError::NotFound => OpenFailure::NotFound,
            OpenError::Other(message) => OpenFailure::Other(message@),
        }
    }
}

/// What is mounted somewhere.
#[derive(Debug, Clone, PartialEq, Eq)]
pub struct Mounted {
    pub devpth: String,
    pub fs_type: String,
    pub mount_point: String,
}

/// The mathematical form of a [`Mounted`].
pub struct MountedAt {
    pub devpth: Seq<char>,
    pub fs_type: Seq<char>,
    pub mount_point: Seq<char>,
}

impl View for Mounted {
    type V = MountedAt;

    open spec fn view(&self) -> MountedAt {
        MountedAt { devpth: self.devpth@, fs_type: self.fs_type@, mount_point: self.mount_point@ }
    }
}

impl Mounted {
    pub fn copy(&self) -> (r: Self)
        ensures
            r@ == self@,
    {
        Mounted {
            devpth: self.devpth.clone(),
            fs_type: self.fs_type.clone(),
            mount_point: self.mount_point.clone(),
        }
    }
}

/// What a scripted command answers with.
#[derive(Debug, Clone, PartialEq, Eq)]
pub struct CommandResult {
    pub exit_code: i32,
    pub stdout: String,
    pub stderr: String,
}

/// The mathematical form of a [`CommandResult`].
pub struct Scripted {
    pub exit_code: int,
    pub stdout: Seq<char>,
    pub stderr: Seq<char>,
}

impl View for CommandResult {
    type V = Scripted;

    open spec fn view(&self) -> Scripted {
        Scripted { exit_code: self.exit_code as int, stdout: self.stdout@, stderr: self.stderr@ }
    }
}

/// An association list of scripted commands.
pub open spec fn command_table(t: Seq<(String, CommandResult)>) -> Seq<(Seq<char>, Scripted)> {
    Seq::new(t.len(), |i: int| (t[i].0@, t[i].1@))
}

/// The scripted command under a key.
pub fn lookup_command<'a>(table: &'a Vec<(String, CommandResult)>, key: &str) -> (r: Option<&'a CommandResult>)
    ensures
        match r {
            Some(c) => lookup(command_table(table@), key@) == Some(c@),
            None => lookup(command_table(table@), key@) is None,
        },
{
    let ghost t = command_table(table@);
    let mut i: usize = 0;
    assert(t.skip(0) =~= t);
    while i < table.len()
        invariant
            i <= table@.len(),
            t == command_table(table@),
            lookup(t.skip(i as int), key@) == lookup(t, key@),
        decreases table.len() - i,
    {
        if same(table[i].0.as_str(), key) {
            return Some(&table[i].1);
        }
        assert(t.skip(i as int).skip(1) =~= t.skip(i + 1));
        i += 1;
    }
    None
}

/// What a command answers that is scripted to answer so, where some exit codes
/// are no failure. A command that is not scripted is not found.
pub open spec fn scripted_output(argv: Seq<Seq<char>>, script: Option<Scripted>, rcs: Seq<int>) -> Result<
    (Seq<char>, Seq<char>),
    Failed,
> {
    match script {
        None => Err(
            Failed {
                argv,
                exit_code: Some(127),
                stdout: Seq::empty(),
                stderr: (if argv.len() > 0 {
                    argv[0]
                } else {
                    Seq::empty()
                }) + ": not found"@,
            },
        ),
        Some(c) => if rcs.contains(c.exit_code) {
            Ok((c.stdout, c.stderr))
        } else {
            Err(Failed { argv, exit_code: Some(c.exit_code), stdout: c.stdout, stderr: c.stderr })
        },
    }
}

/// The outcome of a command.
pub open spec fn output(r: Result<(String, String), ProcError>) -> Result<(Seq<char>, Seq<char>), Failed> {
    match r {
        Ok(p) => Ok((p.0@, p.1@)),
        Err(e) => Err(e@),
    }
}

pub open spec fn int_list(v: Seq<i32>) -> Seq<int> {
    Seq::new(v.len(), |i: int| v[i] as int)
}

fn has_code(v: &Vec<i32>, code: i32) -> (r: bool)
    ensures
        r == int_list(v@).contains(code as int),
{
    let mut i: usize = 0;
    while i < v.len()
        invariant
            i <= v@.len(),
            forall|j: int| 0 <= j < i ==> int_list(v@)[j] != code as int,
        decreases v.len() - i,
    {
        if v[i] == code {
            assert(int_list(v@)[i as int] == code as int);
            return true;
        }
        i += 1;
    }
    false
}

/// The answer of a scripted command.
pub fn answer_command(argv: &Vec<String>, script: Option<&CommandResult>, rcs: &Vec<i32>) -> (r: Result<
    (String, String),
    ProcError,
>)
    ensures
        output(r) == scripted_output(
            texts(argv@),
            match script {
                Some(c) => Some(c@),
                None => None,
            },
            int_list(rcs@),
        ),
{
    match script {
        None => {
            let first = if argv.len() > 0 {
                argv[0].clone()
            } else {
                String::new()
            };
            Err(
                ProcError {
                    argv: copy_strings(argv),
                    exit_code: Some(127),
                    stdout: String::new(),
                    stderr: cat2(first.as_str(), ": not found"),
                },
            )
        },
        Some(c) => if has_code(rcs, c.exit_code) {
            Ok((c.stdout.clone(), c.stderr.clone()))
        } else {
            Err(
                ProcError {
                    argv: copy_strings(argv),
                    exit_code: Some(c.exit_code),
                    stdout: c.stdout.clone(),
                    stderr: c.stderr.clone(),
                },
            )
        },
    }
}

/// A list of texts as it is printed.
pub open spec fn list_text(items: Seq<Seq<char>>) -> Seq<char> {
    "["@ + join(Seq::new(items.len(), |i: int| quoted(items[i])), ", "@) + "]"@
}

pub fn py_list(items: &Vec<String>) -> (r: String)
    ensures
        r@ == list_text(texts(items@)),
{
    broadcast use texts_push;
    let ghost want = Seq::new(items@.len(), |i: int| quoted(texts(items@)[i]));
    let mut parts: Vec<String> = Vec::new();
    let mut i: usize = 0;
    while i < items.len()
        invariant
            i <= items@.len(),
            want == Seq::new(items@.len(), |i: int| quoted(texts(items@)[i])),
            texts(parts@) == want.take(i as int),
        decreases items.len() - i,
    {
        parts.push(repr_str(items[i].as_str()));
        i += 1;
        assert(want.take(i as int) =~= want.take(i - 1).push(want[i - 1]));
    }
    assert(want.take(i as int) =~= want);
    cat3("[", join_with(&parts, ", ").as_str(), "]")
}

/// The output of a command as an error report shows it: without the line feeds
/// at its end, and with the lines behind the first moved to the right.
pub open spec fn indented(text: Seq<char>) -> Seq<char> {
    replaced(trim_end(Class::One('\n'), text), "\n"@, "\n        "@)
}

pub fn indent_text(text: &str) -> (r: String)
    ensures
        r@ == indented(text@),
{
    proof {
        reveal_strlit("\n");
    }
    replace(trim_end_of(Class::One('\n'), text).as_str(), "\n", "\n        ")
}

/// The exit code as an error report shows it.
pub open spec fn code_text(code: Option<int>) -> Seq<char> {
    match code {
        Some(n) => dec_int(n),
        None => "-"@,
    }
}

/// The report on a failed command.
pub open spec fn report(command: Seq<char>, e: Failed) -> Seq<char> {
    "Unexpected error while running command.\nCommand: "@ + command + "\nExit code: "@ + code_text(e.exit_code)
        + "\nReason: -\nStdout: "@ + indented(e.stdout) + "\nStderr: "@ + indented(e.stderr)
}

/// What a failed command is reported as.
pub open spec fn error_text(e: Failed) -> Seq<char> {
    report(list_text(e.argv), e)
}

impl ProcError {
    /// The report on the failure, with the command as the error names it.
    pub fn report_as(&self, command: &str) -> (r: String)
        ensures
            r@ == report(command@, self@),
    {
        let code = match self.exit_code {
            Some(code) => dec_int_of(code as i128),
            None => "-".to_owned(),
        };
        let head = cat7(
            "Unexpected error while running command.\nCommand: ",
            command,
            "\nExit code: ",
            code.as_str(),
            "\nReason: -\nStdout: ",
            indent_text(self.stdout.as_str()).as_str(),
            "\nStderr: ",
        );
        cat2(head.as_str(), indent_text(self.stderr.as_str()).as_str())
    }

    /// The report on the failure.
    pub fn to_text(&self) -> (r: String)
        ensures
            r@ == error_text(self@),
    {
        self.report_as(py_list(&self.argv).as_str())
    }
}

// ---------------------------------------------------------------------------
// The module

/// What growing partitions is configured with.
pub open spec fn settings(cfg: Seq<(Seq<char>, Val)>) -> Option<Seq<(Seq<char>, Val)>> {
    match get(cfg, "growpart"@) {
        None => Some(Seq::empty()),
        Some(Val::Object(m)) => Some(m),
        Some(_) => None,
    }
}

/// The mode, `auto` where none is set.
pub open spec fn mode_in(m: Seq<(Seq<char>, Val)>) -> Val {
    match get(m, "mode"@) {
        Some(v) => v,
        None => Val::Text("auto"@),
    }
}

/// Whether the file that switches growing off is to be minded.
pub open spec fn minds_switch(m: Seq<(Seq<char>, Val)>) -> bool {
    match get(m, "ignore_growroot_disabled"@) {
        Some(v) => switched_off(v),
        None => true,
    }
}

/// What is used where nothing is configured.
pub const DEFAULT_TEXT: &'static str = "{'mode': 'auto', 'devices': ['/'], 'ignore_growroot_disabled': False}";

/// Says that growing is switched off, and of a mode for that other than `off` that it
/// is not to be used any more.
pub open spec fn off_told<H: Host>(m: Grown<H>, mode: Val) -> Grown<H> {
    let m1 = if mode == Val::Text("off"@) {
        m
    } else {
        ask_report::<H>(
            m,
            Level::Deprecated,
            "lifecycle.py"@,
            "Growpart's 'mode' key with value '"@ + show(mode)
                + "' is deprecated in 22.2 and scheduled to be removed in 27.2. Use 'off' instead."@,
        )
    };
    logged::<H>(m1, "growpart disabled: mode="@ + show(mode))
}

fn tell_off<H: Host>(mode: &Node, host: &mut H)
    ensures
        final(host).machine() == off_told::<H>(old(host).machine(), mode@),
{
    let off = match mode {
        Node::Text(s) => same(s.as_str(), "off"),
        _ => false,
    };
    let shown = py_str(mode);
    if !off {
        host.report(
            Level::Deprecated,
            "lifecycle.py",
            cat3(
                "Growpart's 'mode' key with value '",
                shown.as_str(),
                "' is deprecated in 22.2 and scheduled to be removed in 27.2. Use 'off' instead.",
            ).as_str(),
        );
    }
    log_debug(host, cat2("growpart disabled: mode=", shown.as_str()).as_str());
}

/// What is said of the want of a tool.
pub open spec fn no_tool_text(e: NoTool) -> Seq<char> {
    match e {
        NoTool::Value(m) => m,
        NoTool::Type(m) => m,
    }
}

/// What is decided with settings before a device is touched: the tool and the
/// devices, or that there is nothing to do. Only a mode other than `auto` fails for
/// want of a tool.
pub open spec fn settings_decided<H: Host>(m: Grown<H>, s: Seq<(Seq<char>, Val)>) -> (
    Grown<H>,
    Result<Option<(Resizer, Seq<Val>)>, Seq<char>>,
) {
    let mode = mode_in(s);
    if switched_off(mode) {
        (off_told::<H>(m, mode), Ok(None))
    } else {
        let (m1, off) = if minds_switch(s) {
            ask_is_file::<H>(m, "/etc/growroot-disabled"@)
        } else {
            (m, false)
        };
        let devices = option_items(s, "devices"@, seq![Val::Text("/"@)]);
        if off {
            let m2 = logged::<H>(m1, "growpart disabled: /etc/growroot-disabled exists"@);
            (logged::<H>(m2, "use ignore_growroot_disabled to ignore"@), Ok(None))
        } else if devices.len() == 0 {
            (logged::<H>(m1, "growpart: empty device list"@), Ok(None))
        } else {
            let (m2, tool) = choose_tool::<H>(m1, mode, devices);
            match tool {
                Ok(tool) => (m2, Ok(Some((tool, devices)))),
                Err(e) => (
                    logged::<H>(
                        m2,
                        "growpart unable to find resizer for '"@ + show(mode) + "': "@ + no_tool_text(e),
                    ),
                    if mode == Val::Text("auto"@) {
                        Ok(None)
                    } else {
                        Err(no_tool_text(e))
                    },
                ),
            }
        }
    }
}

/// What is decided before a device is touched.
pub open spec fn decided<H: Host>(m: Grown<H>, cfg: Seq<(Seq<char>, Val)>) -> (
    Grown<H>,
    Result<Option<(Resizer, Seq<Val>)>, Seq<char>>,
) {
    let m1 = if get(cfg, "growpart"@) is None {
        logged::<H>(m, "No 'growpart' entry in cfg.  Using default: "@ + DEFAULT_TEXT@)
    } else {
        m
    };
    match settings(cfg) {
        None => (warned::<H>(m1, "'growpart' in config was not a dict"@), Ok(None)),
        Some(s) => settings_decided::<H>(m1, s),
    }
}

pub open spec fn plan_result(r: Result<Option<(Resizer, Vec<Node>)>, String>) -> Result<
    Option<(Resizer, Seq<Val>)>,
    Seq<char>,
> {
    match r {
        Ok(Some(p)) => Ok(Some((p.0, vals(p.1@)))),
        Ok(None) => Ok(None),
        Err(e) => Err(e@),
    }
}

/// Decides on the tool and the devices.
pub fn plan<H: Host>(cfg: &Object, host: &mut H) -> (r: Result<Option<(Resizer, Vec<Node>)>, String>)
    ensures
        (final(host).machine(), plan_result(r)) == decided::<H>(old(host).machine(), cfg@),
{
    let empty = Object::new();
    let mycfg = match cfg.get("growpart") {
        None => {
            log_debug(host, cat2("No 'growpart' entry in cfg.  Using default: ", DEFAULT_TEXT).as_str());
            &empty
        },
        Some(Node::Object(m)) => m,
        Some(_) => {
            log_warn(host, "'growpart' in config was not a dict");
            return Ok(None);
        },
    };
    let mode = match mycfg.get("mode") {
        Some(v) => v.clone(),
        None => Node::text("auto"),
    };
    if is_false(&mode) {
        tell_off(&mode, host);
        return Ok(None);
    }
    let minds = match mycfg.get("ignore_growroot_disabled") {
        Some(v) => is_false(v),
        None => true,
    };
    if minds && host.is_file("/etc/growroot-disabled") {
        log_debug(host, "growpart disabled: /etc/growroot-disabled exists");
        log_debug(host, "use ignore_growroot_disabled to ignore");
        return Ok(None);
    }
    let mut default: Vec<Node> = Vec::new();
    default.push(Node::text("/"));
    assert(vals(default@) =~= seq![Val::Text("/"@)]);
    let devices = cfg_option_list(mycfg, "devices", default);
    assert(vals(devices@).len() == devices@.len());
    if devices.len() == 0 {
        log_debug(host, "growpart: empty device list");
        return Ok(None);
    }
    match resizer_factory(host, &mode, &devices) {
        Ok(tool) => Ok(Some((tool, devices))),
        Err(e) => {
            let auto = match &mode {
                Node::Text(s) => same(s.as_str(), "auto"),
                _ => false,
            };
            let text = e.to_text();
            log_debug(
                host,
                cat4(
                    "growpart unable to find resizer for '",
                    py_str(&mode).as_str(),
                    "': ",
                    text.as_str(),
                ).as_str(),
            );
            if auto {
                Ok(None)
            } else {
                Err(text)
            }
        },
    }
}

/// Says what came of an entry; that a device was grown is said more loudly.
pub open spec fn row_told<H: Host>(m: Grown<H>, row: Row) -> Grown<H> {
    let entry = "'"@ + show(row.devent) + "' "@;
    if row.action == Resize::Changed {
        informed::<H>(m, entry + "resized: "@ + row.message)
    } else {
        logged::<H>(m, entry + resize_name(row.action) + ": "@ + row.message)
    }
}

/// Says what came of every entry.
pub open spec fn rows_told<H: Host>(m: Grown<H>, rows: Seq<Row>) -> Grown<H>
    decreases rows.len(),
{
    if rows.len() == 0 {
        m
    } else {
        rows_told::<H>(row_told::<H>(m, rows[0]), rows.skip(1))
    }
}

fn tell_row<H: Host>(row: &Outcome, host: &mut H)
    ensures
        final(host).machine() == row_told::<H>(old(host).machine(), row@),
{
    let entry = cat3("'", py_str(&row.devent).as_str(), "' ");
    if row.action == Resize::Changed {
        log_info(host, cat3(entry.as_str(), "resized: ", row.message.as_str()).as_str());
    } else {
        log_debug(host, cat4(entry.as_str(), row.action.name(), ": ", row.message.as_str()).as_str());
    }
}

fn tell_rows<H: Host>(rows: &Vec<Outcome>, host: &mut H)
    ensures
        final(host).machine() == rows_told::<H>(old(host).machine(), outcomes(rows@)),
{
    let ghost all = outcomes(rows@);
    let mut i: usize = 0;
    assert(all.skip(0) =~= all);
    while i < rows.len()
        invariant
            i <= rows@.len(),
            all == outcomes(rows@),
            rows_told::<H>(host.machine(), all.skip(i as int)) == rows_told::<H>(old(host).machine(), all),
        decreases rows.len() - i,
    {
        assert(all.skip(i as int)[0] == rows@[i as int]@);
        assert(all.skip(i as int).skip(1) =~= all.skip(i + 1));
        tell_row(&rows[i], host);
        i += 1;
    }
}

/// Grows the partitions of a configuration, and says what came of each.
pub open spec fn grow_all<H: Host>(m: Grown<H>, cfg: Seq<(Seq<char>, Val)>) -> (Grown<H>, Result<Seq<Row>, Seq<char>>) {
    let (m1, plan) = decided::<H>(m, cfg);
    match plan {
        Err(e) => (m1, Err(e)),
        Ok(None) => (m1, Ok(Seq::empty())),
        Ok(Some((tool, devices))) => {
            let (m2, rows) = rounds::<H>(m1, tool, devices, Seq::empty(), u64::MAX as nat);
            match rows {
                Err(e) => (m2, Err(e)),
                Ok(rows) => (rows_told::<H>(m2, rows), Ok(rows)),
            }
        },
    }
}

/// Grows the partitions of a configuration, and says what came of each entry.
pub fn handle_with<H: Host>(cfg: &Object, host: &mut H) -> (r: Result<Vec<Outcome>, String>)
    ensures
        (final(host).machine(), rows_result(r)) == grow_all::<H>(old(host).machine(), cfg@),
{
    match plan(cfg, host) {
        Err(e) => Err(e),
        Ok(None) => {
            let none: Vec<Outcome> = Vec::new();
            assert(outcomes(none@) =~= Seq::empty());
            Ok(none)
        },
        Ok(Some((tool, devices))) => {
            let rows = match resize_devices(host, tool, &devices) {
                Ok(rows) => rows,
                Err(e) => return Err(e),
            };
            tell_rows(&rows, host);
            Ok(rows)
        },
    }
}

// ---------------------------------------------------------------------------
// Laws

/// Where it is switched off, all that happens is that the log says so.
pub proof fn switched_off_asks_nothing<H: Host>(m: Grown<H>, cfg: Seq<(Seq<char>, Val)>, s: Seq<(Seq<char>, Val)>)
    requires
        get(cfg, "growpart"@) == Some(Val::Object(s)),
        switched_off(mode_in(s)),
    ensures
        grow_all::<H>(m, cfg) == (off_told::<H>(m, mode_in(s)), Ok::<Seq<Row>, Seq<char>>(Seq::empty())),
{
}

/// With the mode that picks a tool by itself, the want of a tool is no failure.
pub proof fn auto_never_wants_a_tool<H: Host>(m: Grown<H>, cfg: Seq<(Seq<char>, Val)>, s: Seq<(Seq<char>, Val)>)
    requires
        settings(cfg) == Some(s),
        mode_in(s) == Val::Text("auto"@),
    ensures
        decided::<H>(m, cfg).1 is Ok,
{
}

}
