//! The tools that grow a partition.

use vstd::prelude::*;

use crate::cc::growpart::host::{
    ask_is_file, ask_manage_service, ask_mkdir, ask_mkdtemp, ask_path_exists, ask_rmtree, ask_seek_size, ask_subp,
    ask_tmp_exec_path, failure_told, log_debug, log_failure, logged, Call, Grown, Host,
};
use crate::cc::growpart::{error_text, output, Failed, OpenError, OpenFailure, ProcError};
use crate::machine::text_table;
use crate::number::{parse_digits, parsed};
use crate::paths::{join_path, joined};
use crate::show::{py_str, show};
use crate::space::{is_white, trim, trim_of, Class};
use crate::text::{
    argv2, argv3, argv4, argv5, cat2, cat3, cat4, cat5, chars_of, contains, holds, same, slice_text, split, split_on, stands_at,
    texts,
};
use crate::value::{vals, Node, Val};

verus! {

/// A tool that grows partitions.
#[derive(Debug, Clone, Copy, PartialEq, Eq, Structural)]
pub enum Resizer {
    GrowPart,
    GrowFS,
    Gpart,
}

/// Why there is no tool.
#[derive(Debug, Clone, PartialEq, Eq)]
pub enum FactoryError {
    /// The tool is not available.
    Value(String),
    /// There is no tool of that name.
    Type(String),
}

/// The mathematical form of a [`FactoryError`].
pub enum NoTool {
    Value(Seq<char>),
    Type(Seq<char>),
}

impl View for FactoryError {
    type V = NoTool;

    open spec fn view(&self) -> NoTool {
        match self {
            FactoryError::Value(m) => NoTool::Value(m@),
            FactoryError::Type(m) => NoTool::Type(m@),
        }
    }
}

impl FactoryError {
    /// The message.
    pub fn to_text(&self) -> (r: String)
        ensures
            r@ == match self@ {
                NoTool::Value(m) => m,
                NoTool::Type(m) => m,
            },
    {
        match self {
            FactoryError::Value(m) => m.clone(),
            FactoryError::Type(m) => m.clone(),
        }
    }
}

/// Runs a command without variables and input.
pub open spec fn run<H: Host>(m: Grown<H>, argv: Seq<Seq<char>>) -> (Grown<H>, Result<(Seq<char>, Seq<char>), Failed>) {
    ask_subp::<H>(m, argv, Seq::empty(), None)
}

pub fn run_of<H: Host>(host: &mut H, argv: &Vec<String>) -> (r: Result<(String, String), ProcError>)
    ensures
        (final(host).machine(), output(r)) == run::<H>(old(host).machine(), texts(argv@)),
{
    let env: Vec<(String, String)> = Vec::new();
    assert(text_table(env@) =~= Seq::empty());
    host.subp(argv, &env, None)
}

/// The variables that make a tool print in its own language.
pub open spec fn lang_c() -> Seq<(Seq<char>, Seq<char>)> {
    seq![("LANG"@, "C"@)]
}

fn run_lang_c<H: Host>(host: &mut H, argv: &Vec<String>) -> (r: Result<(String, String), ProcError>)
    ensures
        (final(host).machine(), output(r)) == ask_subp::<H>(old(host).machine(), texts(argv@), lang_c(), None),
{
    let mut env: Vec<(String, String)> = Vec::new();
    env.push(("LANG".to_owned(), "C".to_owned()));
    assert(text_table(env@) =~= lang_c());
    host.subp(argv, &env, None)
}

/// Whether a text holds `--update` with white space behind it.
pub open spec fn offers_update(out: Seq<char>) -> bool {
    exists|i: int| stands_at(out, "--update"@, i) && i + 8 < out.len() && is_white(out[i + 8])
}

pub fn contains_update_flag(out: &str) -> (r: bool)
    ensures
        r == offers_update(out@),
{
    let a = chars_of(out);
    let pat = chars_of("--update");
    proof {
        reveal_strlit("--update");
    }
    let mut i: usize = 0;
    while i < a.len()
        invariant
            a@ == out@,
            pat@ == "--update"@,
            pat@.len() == 8,
            i <= a@.len(),
            forall|j: int|
                0 <= j < i ==> !(#[trigger] stands_at(out@, "--update"@, j) && j + 8 < out@.len() && is_white(out@[j
                    + 8])),
        decreases a.len() - i,
    {
        if crate::text::at(&a, &pat, i) && a.len() - i > 8 && Class::Space.has(a[i + 8]) {
            return true;
        }
        i += 1;
    }
    assert(!offers_update(out@)) by {
        if offers_update(out@) {
            let j = choose|j: int| stands_at(out@, "--update"@, j) && j + 8 < out@.len() && is_white(out@[j + 8]);
            assert(0 <= j < out@.len());
            assert(stands_at(out@, "--update"@, j));
        }
    }
    false
}

// ---------------------------------------------------------------------------
// Which tool

/// Whether a tool can be used for some devices.
pub open spec fn usable<H: Host>(m: Grown<H>, tool: Resizer, devices: Seq<Val>) -> (Grown<H>, bool) {
    match tool {
        Resizer::GrowPart => {
            let (m1, out) = ask_subp::<H>(m, seq!["growpart"@, "--help"@], lang_c(), None);
            (
                m1,
                match out {
                    Ok(o) => offers_update(o.0),
                    Err(_) => false,
                },
            )
        },
        Resizer::GrowFS => {
            let (m1, there) = ask_is_file::<H>(m, "/etc/rc.d/growfs"@);
            (m1, there && devices == seq![Val::Text("/"@)])
        },
        Resizer::Gpart => {
            let (m1, out) = ask_subp::<H>(m, seq!["gpart"@, "help"@], lang_c(), None);
            (
                m1,
                match out {
                    Ok(o) => holds(o.1, "gpart recover "@),
                    Err(e) => e.exit_code == Some(1int) && holds(e.stderr, "gpart recover "@),
                },
            )
        },
    }
}

impl Resizer {
    /// Whether the tool can be used for some devices.
    pub fn available<H: Host>(self, host: &mut H, devices: &Vec<Node>) -> (r: bool)
        ensures
            (final(host).machine(), r) == usable::<H>(old(host).machine(), self, vals(devices@)),
    {
        match self {
            Resizer::GrowPart => match run_lang_c(host, &argv2("growpart", "--help")) {
                Ok(out) => contains_update_flag(out.0.as_str()),
                Err(_) => false,
            },
            Resizer::GrowFS => {
                let there = host.is_file("/etc/rc.d/growfs");
                let root_only = if devices.len() == 1 {
                    match &devices[0] {
                        Node::Text(s) => same(s.as_str(), "/"),
                        _ => false,
                    }
                } else {
                    false
                };
                proof {
                    if root_only {
                        assert(vals(devices@) =~= seq![Val::Text("/"@)]);
                    } else if vals(devices@) == seq![Val::Text("/"@)] {
                        assert(vals(devices@)[0] == devices@[0]@);
                        assert(false);
                    }
                }
                there && root_only
            },
            Resizer::Gpart => match run_lang_c(host, &argv2("gpart", "help")) {
                Ok(out) => contains(out.1.as_str(), "gpart recover "),
                Err(e) => match e.exit_code {
                    Some(code) => code == 1 && contains(e.stderr.as_str(), "gpart recover "),
                    None => false,
                },
            },
        }
    }
}

/// The tool of a name.
pub open spec fn tool_named(mode: Val) -> Option<Resizer> {
    match mode {
        Val::Text(name) => if name == "growpart"@ {
            Some(Resizer::GrowPart)
        } else if name == "growfs"@ {
            Some(Resizer::GrowFS)
        } else if name == "gpart"@ {
            Some(Resizer::Gpart)
        } else {
            None
        },
        _ => None,
    }
}

/// The first tool that can be used.
pub open spec fn first_usable<H: Host>(m: Grown<H>, devices: Seq<Val>) -> (Grown<H>, Option<Resizer>) {
    let (m1, a) = usable::<H>(m, Resizer::GrowPart, devices);
    if a {
        (m1, Some(Resizer::GrowPart))
    } else {
        let (m2, b) = usable::<H>(m1, Resizer::GrowFS, devices);
        if b {
            (m2, Some(Resizer::GrowFS))
        } else {
            let (m3, c) = usable::<H>(m2, Resizer::Gpart, devices);
            (
                m3,
                if c {
                    Some(Resizer::Gpart)
                } else {
                    None
                },
            )
        }
    }
}

/// The tool for a mode: `auto` is the first that can be used, any other mode is
/// the name of one.
pub open spec fn choose_tool<H: Host>(m: Grown<H>, mode: Val, devices: Seq<Val>) -> (Grown<H>, Result<Resizer, NoTool>) {
    if mode == Val::Text("auto"@) {
        let (m1, tool) = first_usable::<H>(m, devices);
        (
            m1,
            match tool {
                Some(tool) => Ok(tool),
                None => Err(NoTool::Value("No resizers available"@)),
            },
        )
    } else {
        match tool_named(mode) {
            None => (m, Err(NoTool::Type("unknown resize mode "@ + show(mode)))),
            Some(tool) => {
                let (m1, there) = usable::<H>(m, tool, devices);
                (
                    m1,
                    if there {
                        Ok(tool)
                    } else {
                        Err(NoTool::Value("mode "@ + show(mode) + " not available"@))
                    },
                )
            },
        }
    }
}

pub open spec fn tool_result(r: Result<Resizer, FactoryError>) -> Result<Resizer, NoTool> {
    match r {
        Ok(t) => Ok(t),
        Err(e) => Err(e@),
    }
}

pub fn resizer_factory<H: Host>(host: &mut H, mode: &Node, devices: &Vec<Node>) -> (r: Result<Resizer, FactoryError>)
    ensures
        (final(host).machine(), tool_result(r)) == choose_tool::<H>(old(host).machine(), mode@, vals(devices@)),
{
    let name = match mode {
        Node::Text(name) => Some(name.as_str()),
        _ => None,
    };
    if let Some(name) = name {
        if same(name, "auto") {
            if Resizer::GrowPart.available(host, devices) {
                return Ok(Resizer::GrowPart);
            }
            if Resizer::GrowFS.available(host, devices) {
                return Ok(Resizer::GrowFS);
            }
            if Resizer::Gpart.available(host, devices) {
                return Ok(Resizer::Gpart);
            }
            return Err(FactoryError::Value("No resizers available".to_owned()));
        }
    }
    let found = match name {
        Some(name) => if same(name, "growpart") {
            Some(Resizer::GrowPart)
        } else if same(name, "growfs") {
            Some(Resizer::GrowFS)
        } else if same(name, "gpart") {
            Some(Resizer::Gpart)
        } else {
            None
        },
        None => None,
    };
    match found {
        None => Err(FactoryError::Type(cat2("unknown resize mode ", py_str(mode).as_str()))),
        Some(tool) => if tool.available(host, devices) {
            Ok(tool)
        } else {
            Err(FactoryError::Value(cat3("mode ", py_str(mode).as_str(), " not available")))
        },
    }
}

// ---------------------------------------------------------------------------
// Sizes

/// How a resize failed: by itself, which is an outcome of the device, or in a way
/// that ends the module.
#[derive(Debug, Clone, PartialEq, Eq)]
pub enum ResizeError {
    Failed(String),
    Fatal(String),
}

/// The mathematical form of a [`ResizeError`].
pub enum ResizeFailure {
    Failed(Seq<char>),
    Fatal(Seq<char>),
}

impl View for ResizeError {
    type V = ResizeFailure;

    open spec fn view(&self) -> ResizeFailure {
        match self {
            ResizeError::Failed(m) => ResizeFailure::Failed(m@),
            ResizeError::Fatal(m) => ResizeFailure::Fatal(m@),
        }
    }
}

/// The 64-bit number that a text stands for, with or without a plus sign.
pub open spec fn unsigned(s: Seq<char>) -> Option<u64> {
    match parsed(
        if s.len() > 0 && s[0] == '+' {
            s.skip(1)
        } else {
            s
        },
        u64::MAX as nat,
    ) {
        Some(n) => Some(n as u64),
        None => None,
    }
}

pub fn parse_u64(s: &str) -> (r: Option<u64>)
    ensures
        r == unsigned(s@),
{
    let a = chars_of(s);
    if a.len() > 0 && a[0] == '+' {
        let rest = slice_text(&a, 1, a.len());
        assert(rest@ =~= s@.skip(1));
        parse_digits(rest.as_str(), u64::MAX)
    } else {
        parse_digits(s, u64::MAX)
    }
}

/// The size of the pool that a dataset is in.
pub open spec fn pool_size<H: Host>(m: Grown<H>, dataset: Seq<char>) -> (Grown<H>, Option<u64>) {
    let pool = split(dataset, "/"@)[0];
    let (m1, out) = run::<H>(m, seq!["zpool"@, "get"@, "-Hpovalue"@, "size"@, pool]);
    match out {
        Ok(o) => (m1, unsigned(trim(Class::Space, o.0))),
        Err(e) => (logged::<H>(m1, "Failed: zpool get size "@ + pool + ": "@ + error_text(e)), None),
    }
}

fn get_zfs_size<H: Host>(host: &mut H, dataset: &str) -> (r: Option<u64>)
    ensures
        (final(host).machine(), r) == pool_size::<H>(old(host).machine(), dataset@),
{
    proof {
        reveal_strlit("/");
    }
    let parts = split_on(dataset, "/");
    assert(texts(parts@)[0] == parts@[0]@);
    match run_of(host, &argv5("zpool", "get", "-Hpovalue", "size", parts[0].as_str())) {
        Ok(out) => parse_u64(trim_of(Class::Space, out.0.as_str()).as_str()),
        Err(e) => {
            let text = cat4("Failed: zpool get size ", parts[0].as_str(), ": ", e.to_text().as_str());
            log_debug(host, text.as_str());
            None
        },
    }
}

/// The size of a device; of one that is not there it is that of its pool, on a
/// filesystem with pools, or unknown.
pub open spec fn size_of<H: Host>(m: Grown<H>, path: Seq<char>, fs: Option<Seq<char>>) -> (
    Grown<H>,
    Result<Option<u64>, ResizeFailure>,
) {
    let (m1, size) = ask_seek_size::<H>(m, path);
    match size {
        Ok(n) => (m1, Ok(Some(n))),
        Err(OpenFailure::Other(message)) => (m1, Err(ResizeFailure::Fatal(message))),
        Err(OpenFailure::NotFound) => if fs == Some("zfs"@) {
            let (m2, n) = pool_size::<H>(m1, path);
            (m2, Ok(n))
        } else {
            (m1, Ok(None))
        },
    }
}

pub open spec fn opt_str(o: Option<&str>) -> Option<Seq<char>> {
    match o {
        Some(s) => Some(s@),
        None => None,
    }
}

pub open spec fn resize_result<T>(r: Result<T, ResizeError>) -> Result<T, ResizeFailure> {
    match r {
        Ok(t) => Ok(t),
        Err(e) => Err(e@),
    }
}

fn get_size<H: Host>(host: &mut H, filename: &str, fs: Option<&str>) -> (r: Result<Option<u64>, ResizeError>)
    ensures
        (final(host).machine(), resize_result(r)) == size_of::<H>(old(host).machine(), filename@, opt_str(fs)),
{
    match host.seek_size(filename) {
        Ok(n) => Ok(Some(n)),
        Err(OpenError::Other(message)) => Err(ResizeError::Fatal(message)),
        Err(OpenError::NotFound) => {
            let zfs = match fs {
                Some(fs) => same(fs, "zfs"),
                None => false,
            };
            if zfs {
                Ok(get_zfs_size(host, filename))
            } else {
                Ok(None)
            }
        },
    }
}

// ---------------------------------------------------------------------------
// Resizing

/// The size before, and the size after.
pub type Sizes = (Option<u64>, Option<u64>);

/// Adds the size after to the size before.
pub open spec fn then_size<H: Host>(m: Grown<H>, before: Option<u64>, path: Seq<char>, fs: Option<Seq<char>>) -> (
    Grown<H>,
    Result<Sizes, ResizeFailure>,
) {
    let (m1, after) = size_of::<H>(m, path, fs);
    (
        m1,
        match after {
            Ok(after) => Ok((before, after)),
            Err(e) => Err(e),
        },
    )
}

fn measure_again<H: Host>(host: &mut H, before: Option<u64>, path: &str, fs: Option<&str>) -> (r: Result<Sizes, ResizeError>)
    ensures
        (final(host).machine(), resize_result(r)) == then_size::<H>(
            old(host).machine(),
            before,
            path@,
            opt_str(fs),
        ),
{
    match get_size(host, path, fs) {
        Ok(after) => Ok((before, after)),
        Err(e) => Err(e),
    }
}

/// The variables that `growpart` runs with.
pub open spec fn growpart_env(tmp: Seq<char>) -> Seq<(Seq<char>, Seq<char>)> {
    seq![("LANG"@, "C"@), ("TMPDIR"@, tmp)]
}

/// Runs `growpart` with a directory of its own; whether it changed anything. With
/// exit code one it says that there is nothing to change.
pub open spec fn grow_within<H: Host>(m: Grown<H>, tmp: Seq<char>, disk: Seq<char>, number: Seq<char>) -> (
    Grown<H>,
    Result<bool, ResizeFailure>,
) {
    let (m1, there) = ask_path_exists::<H>(m, tmp);
    let (m2, made) = if there {
        (m1, Ok(()))
    } else {
        ask_mkdir::<H>(m1, tmp)
    };
    match made {
        Err(e) => (m2, Err(ResizeFailure::Fatal(e))),
        Ok(()) => {
            let (m3, dry) = ask_subp::<H>(
                m2,
                seq!["growpart"@, "--dry-run"@, disk, number],
                growpart_env(tmp),
                None,
            );
            match dry {
                Err(e) => if e.exit_code == Some(1int) {
                    (m3, Ok(false))
                } else {
                    (
                        failure_told::<H>(
                            m3,
                            "Failed growpart --dry-run for ("@ + disk + ", "@ + number + ")"@,
                        ),
                        Err(ResizeFailure::Failed(error_text(e))),
                    )
                },
                Ok(_) => {
                    let (m4, grown) = ask_subp::<H>(m3, seq!["growpart"@, disk, number], growpart_env(tmp), None);
                    match grown {
                        Ok(_) => (m4, Ok(true)),
                        Err(e) => (
                            failure_told::<H>(m4, "Failed: growpart "@ + disk + " "@ + number),
                            Err(ResizeFailure::Failed(error_text(e))),
                        ),
                    }
                },
            }
        },
    }
}

/// Grows a partition with `growpart`. The temporary directory goes away whatever
/// came of it.
pub open spec fn grow_with_growpart<H: Host>(
    m: Grown<H>,
    disk: Seq<char>,
    number: Seq<char>,
    path: Seq<char>,
    fs: Option<Seq<char>>,
) -> (Grown<H>, Result<Sizes, ResizeFailure>) {
    let (m1, before) = size_of::<H>(m, path, fs);
    match before {
        Err(e) => (m1, Err(e)),
        Ok(before) => {
            let (m2, dir) = ask_tmp_exec_path::<H>(m1);
            let (m3, tmp) = ask_mkdtemp::<H>(m2, dir);
            match tmp {
                Err(e) => (m3, Err(ResizeFailure::Fatal(e))),
                Ok(tmp) => {
                    let (m4, changed) = grow_within::<H>(m3, joined(tmp, "growpart"@), disk, number);
                    let m5 = ask_rmtree::<H>(m4, tmp);
                    match changed {
                        Err(e) => (m5, Err(e)),
                        Ok(false) => (m5, Ok((before, before))),
                        Ok(true) => then_size::<H>(m5, before, path, fs),
                    }
                },
            }
        },
    }
}

fn grow_inside<H: Host>(host: &mut H, tmp: &str, diskdev: &str, partnum: &str) -> (r: Result<bool, ResizeError>)
    ensures
        (final(host).machine(), resize_result(r)) == grow_within::<H>(
            old(host).machine(),
            tmp@,
            diskdev@,
            partnum@,
        ),
{
    let mut env: Vec<(String, String)> = Vec::new();
    env.push(("LANG".to_owned(), "C".to_owned()));
    env.push(("TMPDIR".to_owned(), tmp.to_owned()));
    assert(text_table(env@) =~= growpart_env(tmp@));
    if !host.path_exists(tmp) {
        match host.mkdir(tmp) {
            Ok(()) => {},
            Err(e) => return Err(ResizeError::Fatal(e)),
        }
    }
    match host.subp(&argv4("growpart", "--dry-run", diskdev, partnum), &env, None) {
        Ok(_) => {},
        Err(e) => {
            let nothing_to_do = match e.exit_code {
                Some(code) => code == 1,
                None => false,
            };
            if nothing_to_do {
                return Ok(false);
            }
            log_failure(
                host,
                cat5("Failed growpart --dry-run for (", diskdev, ", ", partnum, ")").as_str(),
            );
            return Err(ResizeError::Failed(e.to_text()));
        },
    }
    match host.subp(&argv3("growpart", diskdev, partnum), &env, None) {
        Ok(_) => Ok(true),
        Err(e) => {
            log_failure(host, cat4("Failed: growpart ", diskdev, " ", partnum).as_str());
            Err(ResizeError::Failed(e.to_text()))
        },
    }
}

fn resize_growpart<H: Host>(host: &mut H, diskdev: &str, partnum: &str, partdev: &str, fs: Option<&str>) -> (r: Result<
    Sizes,
    ResizeError,
>)
    ensures
        (final(host).machine(), resize_result(r)) == grow_with_growpart::<H>(
            old(host).machine(),
            diskdev@,
            partnum@,
            partdev@,
            opt_str(fs),
        ),
{
    let before = match get_size(host, partdev, fs) {
        Ok(before) => before,
        Err(e) => return Err(e),
    };
    let dir = host.tmp_exec_path();
    let tmp = match host.mkdtemp(dir.as_str()) {
        Ok(tmp) => tmp,
        Err(e) => return Err(ResizeError::Fatal(e)),
    };
    let changed = grow_inside(host, join_path(tmp.as_str(), "growpart").as_str(), diskdev, partnum);
    host.rmtree(tmp.as_str());
    match changed {
        Err(e) => Err(e),
        Ok(false) => Ok((before, before)),
        Ok(true) => measure_again(host, before, partdev, fs),
    }
}

/// Grows a filesystem with the `growfs` service.
pub open spec fn grow_with_growfs<H: Host>(m: Grown<H>, path: Seq<char>, fs: Option<Seq<char>>) -> (
    Grown<H>,
    Result<Sizes, ResizeFailure>,
) {
    let (m1, before) = size_of::<H>(m, path, fs);
    match before {
        Err(e) => (m1, Err(e)),
        Ok(before) => {
            let (m2, started) = ask_manage_service::<H>(m1, "onestart"@, "growfs"@);
            match started {
                Err(e) => (
                    failure_told::<H>(m2, "Failed: service growfs onestart"@),
                    Err(ResizeFailure::Failed(error_text(e))),
                ),
                Ok(()) => then_size::<H>(m2, before, path, fs),
            }
        },
    }
}

/// Grows a partition with `gpart`: the table is recovered first.
pub open spec fn grow_with_gpart<H: Host>(
    m: Grown<H>,
    disk: Seq<char>,
    number: Seq<char>,
    path: Seq<char>,
    fs: Option<Seq<char>>,
) -> (Grown<H>, Result<Sizes, ResizeFailure>) {
    let (m1, recovered) = run::<H>(m, seq!["gpart"@, "recover"@, disk]);
    match recovered {
        Err(e) if e.exit_code != Some(0int) => (
            failure_told::<H>(m1, "Failed: gpart recover "@ + disk),
            Err(ResizeFailure::Failed(error_text(e))),
        ),
        _ => {
            let (m2, before) = size_of::<H>(m1, path, fs);
            match before {
                Err(e) => (m2, Err(e)),
                Ok(before) => {
                    let (m3, grown) = run::<H>(m2, seq!["gpart"@, "resize"@, "-i"@, number, disk]);
                    match grown {
                        Err(e) => (
                            failure_told::<H>(m3, "Failed: gpart resize -i "@ + number + " "@ + disk),
                            Err(ResizeFailure::Failed(error_text(e))),
                        ),
                        Ok(_) => then_size::<H>(m3, before, path, fs),
                    }
                },
            }
        },
    }
}

/// Grows a partition with a tool.
pub open spec fn grow<H: Host>(
    m: Grown<H>,
    tool: Resizer,
    disk: Seq<char>,
    number: Seq<char>,
    path: Seq<char>,
    fs: Option<Seq<char>>,
) -> (Grown<H>, Result<Sizes, ResizeFailure>) {
    match tool {
        Resizer::GrowPart => grow_with_growpart::<H>(m, disk, number, path, fs),
        Resizer::GrowFS => grow_with_growfs::<H>(m, path, fs),
        Resizer::Gpart => grow_with_gpart::<H>(m, disk, number, path, fs),
    }
}

impl Resizer {
    /// Grows a partition; its sizes before and after.
    pub fn resize<H: Host>(self, host: &mut H, diskdev: &str, partnum: &str, partdev: &str, fs: Option<&str>) -> (r: Result<
        Sizes,
        ResizeError,
    >)
        ensures
            (final(host).machine(), resize_result(r)) == grow::<H>(
                old(host).machine(),
                self,
                diskdev@,
                partnum@,
                partdev@,
                opt_str(fs),
            ),
    {
        match self {
            Resizer::GrowPart => resize_growpart(host, diskdev, partnum, partdev, fs),
            Resizer::GrowFS => {
                let before = match get_size(host, partdev, fs) {
                    Ok(before) => before,
                    Err(e) => return Err(e),
                };
                match host.manage_service("onestart", "growfs") {
                    Ok(()) => measure_again(host, before, partdev, fs),
                    Err(e) => {
                        log_failure(host, "Failed: service growfs onestart");
                        Err(ResizeError::Failed(e.to_text()))
                    },
                }
            },
            Resizer::Gpart => {
                match run_of(host, &argv3("gpart", "recover", diskdev)) {
                    Ok(_) => {},
                    Err(e) => {
                        let bad = match e.exit_code {
                            Some(code) => code != 0,
                            None => true,
                        };
                        if bad {
                            log_failure(host, cat2("Failed: gpart recover ", diskdev).as_str());
                            return Err(ResizeError::Failed(e.to_text()));
                        }
                    },
                }
                let before = match get_size(host, partdev, fs) {
                    Ok(before) => before,
                    Err(e) => return Err(e),
                };
                match run_of(host, &argv5("gpart", "resize", "-i", partnum, diskdev)) {
                    Ok(_) => measure_again(host, before, partdev, fs),
                    Err(e) => {
                        log_failure(host, cat4("Failed: gpart resize -i ", partnum, " ", diskdev).as_str());
                        Err(ResizeError::Failed(e.to_text()))
                    },
                }
            },
        }
    }
}

// ---------------------------------------------------------------------------
// Laws

proof fn more_is_asked<H: Host>(m: Grown<H>, path: Seq<char>, fs: Option<Seq<char>>, call: Call)
    requires
        m.calls.contains(call),
    ensures
        size_of::<H>(m, path, fs).0.calls.contains(call),
{
    let i = m.calls.index_of(call);
    assert(size_of::<H>(m, path, fs).0.calls[i] == call);
}

/// The directory that was made for `growpart` is removed whatever came of it.
pub proof fn the_directory_is_removed<H: Host>(
    m: Grown<H>,
    disk: Seq<char>,
    number: Seq<char>,
    path: Seq<char>,
    fs: Option<Seq<char>>,
    tmp: Seq<char>,
)
    requires
        size_of::<H>(m, path, fs).1 is Ok,
        ({
            let (m1, dir) = ask_tmp_exec_path::<H>(size_of::<H>(m, path, fs).0);
            ask_mkdtemp::<H>(m1, dir).1 == Ok::<Seq<char>, Seq<char>>(tmp)
        }),
    ensures
        grow_with_growpart::<H>(m, disk, number, path, fs).0.calls.contains(Call::RmTree(tmp)),
{
    let (m2, dir) = ask_tmp_exec_path::<H>(size_of::<H>(m, path, fs).0);
    let m3 = ask_mkdtemp::<H>(m2, dir).0;
    let (m4, changed) = grow_within::<H>(m3, joined(tmp, "growpart"@), disk, number);
    let m5 = ask_rmtree::<H>(m4, tmp);
    assert(m5.calls.last() == Call::RmTree(tmp));
    assert(m5.calls.contains(Call::RmTree(tmp)));
    more_is_asked::<H>(m5, path, fs, Call::RmTree(tmp));
}

}
