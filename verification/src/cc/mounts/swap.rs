//! The swap file.

use vstd::prelude::*;

use crate::cc::mounts::devices::{push_step, step_specs};
use crate::cc::mounts::host::{
    ask_human2bytes, ask_megabytes, ask_ninety, ask_over_ninety, ask_path_exists, ask_quarter, ask_read_file,
    ask_root_gigabytes, method_name, size_result, Host, Step, StepSpec, SwapEnv, SwapFacts, SwapMethod, Table,
};
use crate::number::{dec, dec_of, parse_digits, parsed};
use crate::paths::{dirname, parent};
use crate::show::{kind_name, kind_text, py_str, py_truthy, show, truthy};
use crate::space::{fold, fold_of, text_lines, text_lines_of, trim, trim_of, Class};
use crate::text::{
    behind, cat2, cat3, cat5, cat7, opt_text, same, split_at_first, split_once, starts, starts_with, strip_prefix,
    texts,
};
use crate::value::{get, Node, Object, Val};

verus! {

/// A mebibyte.
pub const MB: u64 = 1048576;

/// A gibibyte.
pub const GB: u64 = 1073741824;

// ---------------------------------------------------------------------------
// How large

/// The most that swap may take: what is configured, but no more than nine tenths
/// of the room there is; else twice the memory, but no more than a quarter of that
/// room.
pub open spec fn largest<H: Host>(m: Table<H>, memsize: u64, maxsize: Option<u64>, available: Option<u64>) -> (
    Table<H>,
    u64,
) {
    let twice: u64 = if memsize <= u64::MAX / 2 {
        (memsize * 2) as u64
    } else {
        u64::MAX
    };
    match (available, maxsize) {
        (None, None) => (m, twice),
        (None, Some(max)) => (m, max),
        (Some(room), None) => {
            let (m1, quarter) = ask_quarter::<H>(m, room);
            (
                m1,
                if quarter < twice {
                    quarter
                } else {
                    twice
                },
            )
        },
        (Some(room), Some(max)) => {
            let (m1, over) = ask_over_ninety::<H>(m, max, room);
            if over {
                ask_ninety::<H>(m1, room)
            } else {
                (m1, max)
            }
        },
    }
}

/// What the memory asks for: as much as there is of it up to four gibibytes, four
/// up to sixteen, and then the square root.
pub open spec fn least<H: Host>(m: Table<H>, memsize: u64) -> (Table<H>, u64) {
    if memsize < 4 * GB {
        (m, memsize)
    } else if memsize < 16 * GB {
        (m, (4 * GB) as u64)
    } else {
        let (m1, root) = ask_root_gigabytes::<H>(m, memsize);
        (
            m1,
            if root <= u64::MAX / GB {
                (root * GB) as u64
            } else {
                u64::MAX
            },
        )
    }
}

/// A size in megabytes, with the unit.
pub open spec fn in_megabytes<H: Host>(m: Table<H>, size: u64) -> (Table<H>, Seq<char>) {
    let (m1, text) = ask_megabytes::<H>(m, size);
    (m1, text + " MB"@)
}

/// A size in megabytes that need not be known.
pub open spec fn maybe_megabytes<H: Host>(m: Table<H>, size: Option<u64>, unknown: Seq<char>) -> (Table<H>, Seq<char>) {
    match size {
        Some(n) => in_megabytes::<H>(m, n),
        None => (m, unknown),
    }
}

/// The size for the swap file, and what is said of it.
pub open spec fn suggested<H: Host>(
    m: Table<H>,
    memsize: u64,
    maxsize: Option<u64>,
    available: Option<u64>,
    steps: Seq<StepSpec>,
) -> (Table<H>, Seq<StepSpec>, u64) {
    let (m1, most) = largest::<H>(m, memsize, maxsize, available);
    let (m2, asked_for) = least::<H>(m1, memsize);
    let size = if asked_for < most {
        asked_for
    } else {
        most
    };
    let (m3, a) = in_megabytes::<H>(m2, size);
    let (m4, b) = in_megabytes::<H>(m3, memsize);
    let (m5, c) = maybe_megabytes::<H>(m4, available, "na"@);
    let (m6, d) = maybe_megabytes::<H>(m5, maxsize, "None"@);
    let (m7, e) = in_megabytes::<H>(m6, most);
    (
        m7,
        steps.push(
            StepSpec::Debug(
                ("suggest "@ + a + " swap for "@ + b + " memory with '"@ + c + "' disk given max="@) + d + " [max="@ + e
                    + "]'"@,
            ),
        ),
        size,
    )
}

fn largest_of<H: Host>(memsize: u64, maxsize: Option<u64>, available: Option<u64>, host: &mut H) -> (r: u64)
    ensures
        (final(host).machine(), r) == largest::<H>(old(host).machine(), memsize, maxsize, available),
{
    let twice: u64 = if memsize <= u64::MAX / 2 {
        memsize * 2
    } else {
        u64::MAX
    };
    match available {
        None => match maxsize {
            None => twice,
            Some(max) => max,
        },
        Some(room) => match maxsize {
            None => {
                let quarter = host.quarter(room);
                if quarter < twice {
                    quarter
                } else {
                    twice
                }
            },
            Some(max) => if host.over_ninety(max, room) {
                host.ninety(room)
            } else {
                max
            },
        },
    }
}

fn least_of<H: Host>(memsize: u64, host: &mut H) -> (r: u64)
    ensures
        (final(host).machine(), r) == least::<H>(old(host).machine(), memsize),
{
    if memsize < 4 * GB {
        memsize
    } else if memsize < 16 * GB {
        4 * GB
    } else {
        let root = host.root_gigabytes(memsize);
        if root <= u64::MAX / GB {
            assert(root * GB <= u64::MAX) by (nonlinear_arith)
                requires
                    root <= u64::MAX / GB,
                    GB == 1073741824,
            ;
            root * GB
        } else {
            u64::MAX
        }
    }
}

fn print_megabytes<H: Host>(size: u64, host: &mut H) -> (r: String)
    ensures
        (final(host).machine(), r@) == in_megabytes::<H>(old(host).machine(), size),
{
    let text = host.megabytes(size);
    cat2(text.as_str(), " MB")
}

fn print_maybe<H: Host>(size: Option<u64>, unknown: &str, host: &mut H) -> (r: String)
    ensures
        (final(host).machine(), r@) == maybe_megabytes::<H>(old(host).machine(), size, unknown@),
{
    match size {
        Some(n) => print_megabytes(n, host),
        None => unknown.to_owned(),
    }
}

pub fn suggested_swapsize<H: Host>(
    memsize: u64,
    maxsize: Option<u64>,
    available: Option<u64>,
    steps: &mut Vec<Step>,
    host: &mut H,
) -> (r: u64)
    ensures
        (final(host).machine(), step_specs(final(steps)@), r) == suggested::<H>(
            old(host).machine(),
            memsize,
            maxsize,
            available,
            step_specs(old(steps)@),
        ),
{
    let most = largest_of(memsize, maxsize, available, host);
    let asked_for = least_of(memsize, host);
    let size = if asked_for < most {
        asked_for
    } else {
        most
    };
    let a = print_megabytes(size, host);
    let b = print_megabytes(memsize, host);
    let c = print_maybe(available, "na", host);
    let d = print_maybe(maxsize, "None", host);
    let e = print_megabytes(most, host);
    let first = cat7(
        "suggest ",
        a.as_str(),
        " swap for ",
        b.as_str(),
        " memory with '",
        c.as_str(),
        "' disk given max=",
    );
    push_step(steps, Step::Debug(cat5(first.as_str(), d.as_str(), " [max=", e.as_str(), "]'")));
    size
}

/// A value that is a number of bytes.
pub open spec fn byte_count(v: Val) -> Result<u64, Seq<char>> {
    match v {
        Val::Int(n) => if 0 <= n <= u64::MAX {
            Ok(n as u64)
        } else {
            Err("unsupported operand type(s) for /: '"@ + kind_text(v) + "' and 'int'"@)
        },
        _ => Err("unsupported operand type(s) for /: '"@ + kind_text(v) + "' and 'int'"@),
    }
}

fn as_bytes(value: &Node) -> (r: Result<u64, String>)
    ensures
        size_result(r) == byte_count(value@),
{
    if let Node::Int(n) = value {
        if 0 <= *n && *n <= u64::MAX as i128 {
            return Ok(*n as u64);
        }
    }
    Err(cat3("unsupported operand type(s) for /: '", kind_name(value).as_str(), "' and 'int'"))
}

/// The bytes that a size stands for, which may be a text with a unit.
pub open spec fn size_of<H: Host>(m: Table<H>, v: Val) -> (Table<H>, Result<u64, Seq<char>>) {
    match v {
        Val::Text(text) => ask_human2bytes::<H>(m, text),
        _ => (m, byte_count(v)),
    }
}

fn read_size<H: Host>(v: &Node, host: &mut H) -> (r: Result<u64, String>)
    ensures
        (final(host).machine(), size_result(r)) == size_of::<H>(old(host).machine(), v@),
{
    match v {
        Node::Text(text) => host.human2bytes(text.as_str()),
        other => as_bytes(other),
    }
}

// ---------------------------------------------------------------------------
// How

/// Whether a kernel is older than the one that lets `fallocate` be used for swap.
pub open spec fn is_old_kernel(version: Seq<u32>) -> bool {
    ||| version.len() == 0
    ||| version[0] < 4
    ||| version[0] == 4 && (version.len() == 1 || version[1] < 18)
}

fn old_kernel(version: &Vec<u32>) -> (r: bool)
    ensures
        r == is_old_kernel(version@),
{
    if version.len() == 0 || version[0] < 4 {
        return true;
    }
    version[0] == 4 && (version.len() == 1 || version[1] < 18)
}

/// How a swap file is laid down on a file system.
pub open spec fn method_for(fstype: Seq<char>, version: Seq<u32>) -> SwapMethod {
    if fstype == "xfs"@ && is_old_kernel(version) {
        SwapMethod::Dd
    } else {
        SwapMethod::Fallocate
    }
}

/// What is said before a swap file is laid down.
pub open spec fn creating_text(path: Seq<char>, fstype: Seq<char>, method: Seq<char>) -> Seq<char> {
    "Creating swapfile in '"@ + path + "' on fstype '"@ + fstype + "' using '"@ + method + "'"@
}

pub(crate) fn creating(path: &str, fstype: &str, method: &str) -> (r: String)
    ensures
        r@ == creating_text(path@, fstype@, method@),
{
    cat7("Creating swapfile in '", path, "' on fstype '", fstype, "' using '", method, "'")
}

/// The steps that lay down a swap file. The file system's type must be known.
pub open spec fn create_steps(path: Seq<char>, mib: Seq<char>, env: SwapFacts, steps: Seq<StepSpec>) -> (
    Seq<StepSpec>,
    Result<(), Seq<char>>,
) {
    let s1 = steps.push(StepSpec::EnsureDir(parent(path)));
    match env.fstype {
        None => (s1, Err("'NoneType' object is not subscriptable"@)),
        Some(fstype) => {
            let s2 = if fstype == "btrfs"@ {
                s1.push(StepSpec::BtrfsPrepare(path))
            } else {
                s1
            };
            let method = method_for(fstype, env.kernel_version);
            (
                s2.push(StepSpec::Debug(creating_text(path, fstype, method_name(method)))).push(
                    StepSpec::CreateSwap { path, mib, method, fstype },
                ).push(StepSpec::ChmodSwap(path)).push(StepSpec::Mkswap(path)),
                Ok(()),
            )
        },
    }
}

fn plan_create_swapfile(fname: &str, mib: &str, env: &SwapEnv, steps: &mut Vec<Step>) -> (r: Result<(), String>)
    ensures
        (step_specs(final(steps)@), crate::cc::unit_result(r)) == create_steps(
            fname@,
            mib@,
            env@,
            step_specs(old(steps)@),
        ),
{
    push_step(steps, Step::EnsureDir(dirname(fname)));
    let fstype = match &env.fstype {
        Some(fstype) => fstype.as_str(),
        None => return Err("'NoneType' object is not subscriptable".to_owned()),
    };
    if same(fstype, "btrfs") {
        push_step(steps, Step::BtrfsPrepare(fname.to_owned()));
    }
    let method = if same(fstype, "xfs") && old_kernel(&env.kernel_version) {
        SwapMethod::Dd
    } else {
        SwapMethod::Fallocate
    };
    push_step(steps, Step::Debug(creating(fname, fstype, method.name())));
    push_step(
        steps,
        Step::CreateSwap { path: fname.to_owned(), mib: mib.to_owned(), method, fstype: fstype.to_owned() },
    );
    push_step(steps, Step::ChmodSwap(fname.to_owned()));
    push_step(steps, Step::Mkswap(fname.to_owned()));
    Ok(())
}

/// The most that is configured for swap.
pub open spec fn size_limit<H: Host>(m: Table<H>, v: Option<Val>) -> (Table<H>, Result<Option<u64>, Seq<char>>) {
    match v {
        None | Some(Val::Null) => (m, Ok(None)),
        Some(v) => {
            let (m1, n) = size_of::<H>(m, v);
            (
                m1,
                match n {
                    Ok(n) => Ok(Some(n)),
                    Err(e) => Err(e),
                },
            )
        },
    }
}

/// Whether a size is to be found out.
pub open spec fn is_auto(size: Val) -> bool {
    size matches Val::Text(s) && fold(s) == "auto"@
}

/// The size of the swap file, and what is said and done to find it. Without
/// knowing the memory there is none to be found out.
pub open spec fn wanted_size<H: Host>(
    m: Table<H>,
    path: Seq<char>,
    size: Val,
    limit: Option<u64>,
    env: SwapFacts,
    steps: Seq<StepSpec>,
) -> (Table<H>, Seq<StepSpec>, Result<Option<u64>, Seq<char>>) {
    if is_auto(size) {
        match env.memtotal {
            None => (m, steps.push(StepSpec::Debug("Not creating swap: failed to read meminfo"@)), Ok(None)),
            Some(memory) => {
                let (m1, s1, n) = suggested::<H>(
                    m,
                    memory,
                    limit,
                    env.available,
                    steps.push(StepSpec::EnsureDir(parent(path))),
                );
                (m1, s1, Ok(Some(n)))
            },
        }
    } else {
        let (m1, n) = size_of::<H>(m, size);
        (
            m1,
            steps,
            match n {
                Ok(n) => Ok(Some(n)),
                Err(e) => Err(e),
            },
        )
    }
}

/// The steps for a swap file that is not there, and its path where they make one.
pub open spec fn setup_steps<H: Host>(
    m: Table<H>,
    path: Seq<char>,
    size: Val,
    maxsize: Option<Val>,
    env: SwapFacts,
    steps: Seq<StepSpec>,
) -> (Table<H>, Seq<StepSpec>, Result<Option<Seq<char>>, Seq<char>>) {
    let (m1, limit) = size_limit::<H>(m, maxsize);
    match limit {
        Err(e) => (m1, steps, Err(e)),
        Ok(limit) => {
            let (m2, s1, wanted) = wanted_size::<H>(m1, path, size, limit, env, steps);
            match wanted {
                Err(e) => (m2, s1, Err(e)),
                Ok(None) => (m2, s1, Ok(None)),
                Ok(Some(n)) => if n == 0 {
                    (m2, s1.push(StepSpec::Debug("Not creating swap: suggested size was 0"@)), Ok(None))
                } else {
                    let (s2, made) = create_steps(path, dec((n / MB) as nat), env, s1);
                    (
                        m2,
                        s2,
                        match made {
                            Ok(()) => Ok(Some(path)),
                            Err(e) => Err(e),
                        },
                    )
                },
            }
        },
    }
}

pub open spec fn limit_result(r: Result<Option<u64>, String>) -> Result<Option<u64>, Seq<char>> {
    match r {
        Ok(n) => Ok(n),
        Err(e) => Err(e@),
    }
}

pub open spec fn path_result(r: Result<Option<String>, String>) -> Result<Option<Seq<char>>, Seq<char>> {
    match r {
        Ok(o) => Ok(opt_text(o)),
        Err(e) => Err(e@),
    }
}

pub open spec fn opt_node(o: Option<&Node>) -> Option<Val> {
    match o {
        Some(v) => Some(v@),
        None => None,
    }
}

fn read_limit<H: Host>(v: Option<&Node>, host: &mut H) -> (r: Result<Option<u64>, String>)
    ensures
        (final(host).machine(), limit_result(r)) == size_limit::<H>(old(host).machine(), opt_node(v)),
{
    match v {
        None => Ok(None),
        Some(Node::Null) => Ok(None),
        Some(v) => match read_size(v, host) {
            Ok(n) => Ok(Some(n)),
            Err(e) => Err(e),
        },
    }
}

fn find_size<H: Host>(
    fname: &str,
    size: &Node,
    limit: Option<u64>,
    env: &SwapEnv,
    steps: &mut Vec<Step>,
    host: &mut H,
) -> (r: Result<Option<u64>, String>)
    ensures
        (final(host).machine(), step_specs(final(steps)@), limit_result(r)) == wanted_size::<H>(
            old(host).machine(),
            fname@,
            size@,
            limit,
            env@,
            step_specs(old(steps)@),
        ),
{
    let auto = match size {
        Node::Text(s) => same(fold_of(s.as_str()).as_str(), "auto"),
        _ => false,
    };
    if auto {
        let memory = match env.memtotal {
            Some(memory) => memory,
            None => {
                push_step(steps, Step::Debug("Not creating swap: failed to read meminfo".to_owned()));
                return Ok(None);
            },
        };
        push_step(steps, Step::EnsureDir(dirname(fname)));
        return Ok(Some(suggested_swapsize(memory, limit, env.available, steps, host)));
    }
    match read_size(size, host) {
        Ok(n) => Ok(Some(n)),
        Err(e) => Err(e),
    }
}

fn plan_setup_swapfile<H: Host>(
    fname: &str,
    size: &Node,
    maxsize: Option<&Node>,
    env: &SwapEnv,
    steps: &mut Vec<Step>,
    host: &mut H,
) -> (r: Result<Option<String>, String>)
    ensures
        (final(host).machine(), step_specs(final(steps)@), path_result(r)) == setup_steps::<H>(
            old(host).machine(),
            fname@,
            size@,
            opt_node(maxsize),
            env@,
            step_specs(old(steps)@),
        ),
{
    let limit = match read_limit(maxsize, host) {
        Ok(limit) => limit,
        Err(e) => return Err(e),
    };
    let n = match find_size(fname, size, limit, env, steps, host) {
        Ok(Some(n)) => n,
        Ok(None) => return Ok(None),
        Err(e) => return Err(e),
    };
    if n == 0 {
        push_step(steps, Step::Debug("Not creating swap: suggested size was 0".to_owned()));
        return Ok(None);
    }
    let mib = dec_of((n / MB) as u128);
    match plan_create_swapfile(fname, mib.as_str(), env, steps) {
        Ok(()) => Ok(Some(fname.to_owned())),
        Err(e) => Err(e),
    }
}

// ---------------------------------------------------------------------------
// Whether

/// Whether a line of the list of swap in use is for a path.
pub open spec fn in_use(text: Seq<char>, path: Seq<char>) -> bool {
    let lines = text_lines(text);
    exists|i: int| 0 <= i < lines.len() && starts(#[trigger] lines[i], path + " "@)
}

fn is_in_use(text: &str, path: &str) -> (r: bool)
    ensures
        r == in_use(text@, path@),
{
    let lines = text_lines_of(text);
    let prefix = cat2(path, " ");
    let ghost all = texts(lines@);
    let mut i: usize = 0;
    while i < lines.len()
        invariant
            i <= lines@.len(),
            all == texts(lines@),
            all == text_lines(text@),
            prefix@ == path@ + " "@,
            forall|j: int| 0 <= j < i ==> !starts(#[trigger] all[j], path@ + " "@),
        decreases lines.len() - i,
    {
        assert(all[i as int] == lines@[i as int]@);
        if starts_with(lines[i].as_str(), prefix.as_str()) {
            assert(starts(all[i as int], path@ + " "@));
            return true;
        }
        i += 1;
    }
    false
}

/// What is found of a swap file that may be there already: nothing, or that it is
/// left alone, with what is said of it.
pub open spec fn existing<H: Host>(m: Table<H>, path: Seq<char>) -> (Table<H>, Option<StepSpec>, bool) {
    let (m1, there) = ask_path_exists::<H>(m, path);
    if !there {
        (m1, None, false)
    } else {
        let (m2, listed) = ask_path_exists::<H>(m1, "/proc/swaps"@);
        if !listed {
            (
                m2,
                Some(
                    StepSpec::Debug("swap file "@ + path + " exists, but no /proc/swaps exists, being safe"@),
                ),
                true,
            )
        } else {
            let (m3, text) = ask_read_file::<H>(m2, "/proc/swaps"@);
            match text {
                None => (
                    m3,
                    Some(StepSpec::Warning("swap file "@ + path + " exists. Error reading /proc/swaps"@)),
                    true,
                ),
                Some(text) => if in_use(text, path) {
                    (m3, Some(StepSpec::Debug("swap file "@ + path + " already in use"@)), true)
                } else {
                    (
                        m3,
                        Some(StepSpec::Debug("swap file "@ + path + " exists, but not in /proc/swaps"@)),
                        false,
                    )
                },
            }
        }
    }
}

fn look_for<H: Host>(path: &str, steps: &mut Vec<Step>, host: &mut H) -> (r: bool)
    ensures
        ({
            let (m, said, done) = existing::<H>(old(host).machine(), path@);
            &&& final(host).machine() == m
            &&& r == done
            &&& step_specs(final(steps)@) == (match said {
                Some(step) => step_specs(old(steps)@).push(step),
                None => step_specs(old(steps)@),
            })
        }),
{
    if !host.path_exists(path) {
        return false;
    }
    if !host.path_exists("/proc/swaps") {
        push_step(
            steps,
            Step::Debug(cat3("swap file ", path, " exists, but no /proc/swaps exists, being safe")),
        );
        return true;
    }
    match host.read_file("/proc/swaps") {
        None => {
            push_step(steps, Step::Warning(cat3("swap file ", path, " exists. Error reading /proc/swaps")));
            true
        },
        Some(text) => if is_in_use(text.as_str(), path) {
            push_step(steps, Step::Debug(cat3("swap file ", path, " already in use")));
            true
        } else {
            push_step(steps, Step::Debug(cat3("swap file ", path, " exists, but not in /proc/swaps")));
            false
        },
    }
}

/// The name that is configured for the swap file, or the usual one.
pub open spec fn swap_name(cfg: Seq<(Seq<char>, Val)>) -> Val {
    match get(cfg, "filename"@) {
        Some(v) => v,
        None => Val::Text("/swap.img"@),
    }
}

/// The steps for swap, and the path that goes into the table once they are done.
pub open spec fn swap_steps<H: Host>(m: Table<H>, swap: Val, env: SwapFacts) -> (
    Table<H>,
    Seq<StepSpec>,
    Option<Seq<char>>,
) {
    match swap {
        Val::Object(cfg) => {
            let size = match get(cfg, "size"@) {
                Some(v) => v,
                None => Val::Int(0),
            };
            if !(truthy(size) && truthy(swap_name(cfg))) {
                (m, seq![StepSpec::Debug("no need to setup swap"@)], None)
            } else {
                let path = show(swap_name(cfg));
                let (m1, said, done) = existing::<H>(m, path);
                let s1 = match said {
                    Some(step) => seq![step],
                    None => Seq::empty(),
                };
                if done {
                    (m1, s1, Some(path))
                } else {
                    let (m2, s2, made) = setup_steps::<H>(m1, path, size, get(cfg, "maxsize"@), env, s1);
                    match made {
                        Ok(path) => (m2, s2, path),
                        Err(e) => (m2, s2.push(StepSpec::Warning("failed to setup swap: "@ + e)), None),
                    }
                }
            }
        },
        _ => (m, seq![StepSpec::Warning("input for swap config was not a dict."@)], None),
    }
}

pub fn plan_swapcfg<H: Host>(swapcfg: &Node, env: &SwapEnv, host: &mut H) -> (r: (Vec<Step>, Option<String>))
    ensures
        (final(host).machine(), step_specs(r.0@), opt_text(r.1)) == swap_steps::<H>(
            old(host).machine(),
            swapcfg@,
            env@,
        ),
{
    let mut steps: Vec<Step> = Vec::new();
    assert(step_specs(steps@) =~= Seq::empty());
    let cfg = match swapcfg {
        Node::Object(cfg) => cfg,
        _ => {
            push_step(&mut steps, Step::Warning("input for swap config was not a dict.".to_owned()));
            return (steps, None);
        },
    };
    let name = match cfg.get("filename") {
        Some(v) => v.clone(),
        None => Node::text("/swap.img"),
    };
    let size = match cfg.get("size") {
        Some(v) => v.clone(),
        None => Node::Int(0),
    };
    if !(py_truthy(&size) && py_truthy(&name)) {
        push_step(&mut steps, Step::Debug("no need to setup swap".to_owned()));
        return (steps, None);
    }
    let path = py_str(&name);
    let ghost s0 = step_specs(steps@);
    if look_for(path.as_str(), &mut steps, host) {
        return (steps, Some(path));
    }
    match plan_setup_swapfile(path.as_str(), &size, cfg.get("maxsize"), env, &mut steps, host) {
        Ok(made) => (steps, made),
        Err(e) => {
            push_step(&mut steps, Step::Warning(cat2("failed to setup swap: ", e.as_str())));
            (steps, None)
        },
    }
}

/// A number with a plus sign before it or without.
pub open spec fn unsigned(s: Seq<char>) -> Option<nat> {
    parsed(
        match behind(s, "+"@) {
            Some(rest) => rest,
            None => s,
        },
        u64::MAX as nat,
    )
}

/// The room on a file system, from the size of a block and the number of free
/// ones with a space between them.
pub open spec fn room(text: Seq<char>) -> Option<u64> {
    match split_once(trim(Class::Space, text), " "@) {
        None => None,
        Some((size, free)) => match (unsigned(size), unsigned(free)) {
            (Some(a), Some(b)) => Some(
                if a * b <= u64::MAX {
                    (a * b) as u64
                } else {
                    u64::MAX
                },
            ),
            _ => None,
        },
    }
}

fn parse_unsigned(s: &str) -> (r: Option<u64>)
    ensures
        match r {
            Some(n) => unsigned(s@) == Some(n as nat),
            None => unsigned(s@) is None,
        },
{
    match strip_prefix(s, "+") {
        Some(rest) => parse_digits(rest.as_str(), u64::MAX),
        None => parse_digits(s, u64::MAX),
    }
}

pub fn statvfs_available(text: &str) -> (r: Option<u64>)
    ensures
        r == room(text@),
{
    let trimmed = trim_of(Class::Space, text);
    let (size, free) = match split_at_first(trimmed.as_str(), " ") {
        Some(pair) => pair,
        None => return None,
    };
    let a = match parse_unsigned(size.as_str()) {
        Some(a) => a,
        None => return None,
    };
    let b = match parse_unsigned(free.as_str()) {
        Some(b) => b,
        None => return None,
    };
    assert(a as nat * b as nat <= u64::MAX as nat * u64::MAX as nat) by (nonlinear_arith)
        requires
            a <= u64::MAX,
            b <= u64::MAX,
    ;
    let whole: u128 = (a as u128) * (b as u128);
    if whole <= u64::MAX as u128 {
        Some(whole as u64)
    } else {
        Some(u64::MAX)
    }
}

}
