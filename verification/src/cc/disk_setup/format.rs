//! Putting a filesystem on a device.

use vstd::prelude::*;

use crate::cc::disk_setup::host::{log_debug, log_warn, logged, warned, Call, Host};
use crate::cc::disk_setup::make::{assert_and_settle_device, ready, resolve, setting, setting_of};
use crate::cc::disk_setup::probe::{
    check_fs, column_is, exists_at, filesystem, find_device_node, find_node, listed_kind, listed_type, maybe_text, py_eq,
    run, run_of, which, Disks, FsInfo, FsTags, Wanted,
};
use crate::cc::disk_setup::table::{is_digits, py_isdigit, unit_result};
use crate::cc::growpart::{error_text, list_text, py_list, report, Failed};
use crate::machine::{asked, lookup, lookup_text, text_table};
use crate::number::{dec, dec_int_of, dec_of, digits, digits_of};
use crate::show::{kind_name, kind_text, py_str, py_truthy, repr, repr_of, show, truthy};
use crate::space::{first_at, first_of, fold, fold_of, within, Class};
use crate::text::{
    cat2, cat3, cat4, cat5, cat6, char_text, chars_of, contains, holds, opt_text, same, slice_text, texts, texts_push,
};
use crate::value::{get, vals, Node, Object, Val};

verus! {

// ---------------------------------------------------------------------------
// Command templates

/// The rest of a template filled in behind what is filled in already: `%(key)s`
/// is the value of the key, `%%` a percent sign.
pub open spec fn filled_from(s: Seq<char>, mapping: Seq<(Seq<char>, Seq<char>)>, out: Seq<char>) -> Result<
    Seq<char>,
    Seq<char>,
>
    decreases s.len(),
{
    if s.len() == 0 {
        Ok(out)
    } else if s[0] != '%' {
        filled_from(s.skip(1), mapping, out.push(s[0]))
    } else if s.len() > 1 && s[1] == '%' {
        filled_from(s.skip(2), mapping, out.push('%'))
    } else if s.len() > 1 && s[1] == '(' {
        let rest = s.skip(2);
        let end = first_of(Class::One(')'), rest);
        if end < 0 || end >= rest.len() {
            Err("incomplete format key"@)
        } else {
            let key = rest.take(end);
            let tail = rest.skip(end + 1);
            if tail.len() == 0 {
                Err("incomplete format"@)
            } else if tail[0] != 's' {
                Err(
                    "unsupported format character '"@ + seq![tail[0]] + "' (0x"@ + digits(tail[0] as u32 as nat, 16)
                        + ") at index "@ + dec(out.len()),
                )
            } else {
                match lookup(mapping, key) {
                    Some(value) => filled_from(tail.skip(1), mapping, out + value),
                    None => Err("'"@ + key + "'"@),
                }
            }
        }
    } else {
        Err("format requires a mapping"@)
    }
}

/// A template filled in.
pub open spec fn filled_in(template: Seq<char>, mapping: Seq<(Seq<char>, Seq<char>)>) -> Result<Seq<char>, Seq<char>> {
    filled_from(template, mapping, Seq::empty())
}

pub open spec fn text_result(r: Result<String, String>) -> Result<Seq<char>, Seq<char>> {
    match r {
        Ok(s) => Ok(s@),
        Err(e) => Err(e@),
    }
}

pub fn percent_format(template: &str, mapping: &Vec<(String, String)>) -> (r: Result<String, String>)
    ensures
        text_result(r) == filled_in(template@, text_table(mapping@)),
{
    let a = chars_of(template);
    let ghost t = text_table(mapping@);
    let mut out = String::new();
    let mut i: usize = 0;
    assert(a@.skip(0) =~= a@);
    assert(out@ =~= Seq::empty());
    while i < a.len()
        invariant
            a@ == template@,
            t == text_table(mapping@),
            i <= a@.len(),
            filled_from(a@.skip(i as int), t, out@) == filled_in(template@, t),
        decreases a.len() - i,
    {
        let ghost rest = a@.skip(i as int);
        assert(rest.skip(1) =~= a@.skip(i + 1));
        if a[i] != '%' {
            out.push(a[i]);
            i += 1;
            continue;
        }
        if a.len() - i > 1 && a[i + 1] == '%' {
            assert(rest.skip(2) =~= a@.skip(i + 2));
            out.push('%');
            i += 2;
            continue;
        }
        if !(a.len() - i > 1 && a[i + 1] == '(') {
            return Err("format requires a mapping".to_owned());
        }
        assert(rest.skip(2) =~= a@.skip(i + 2));
        let start: usize = i + 2;
        let end = first_at(Class::One(')'), &a, start);
        if end >= a.len() {
            return Err("incomplete format key".to_owned());
        }
        let key = slice_text(&a, start, end);
        let ghost body = rest.skip(2);
        assert(key@ =~= body.take(end - start));
        assert(body.skip(end - start + 1) =~= a@.skip(end + 1));
        let after: usize = end + 1;
        if after >= a.len() {
            return Err("incomplete format".to_owned());
        }
        if a[after] != 's' {
            let shown = char_text(a[after]);
            let number = digits_of(a[after] as u32 as u128, 16);
            let head = cat6(
                "unsupported format character '",
                shown.as_str(),
                "' (0x",
                number.as_str(),
                ") at index ",
                dec_of(out.as_str().unicode_len() as u128).as_str(),
            );
            return Err(head);
        }
        match lookup_text(mapping, key.as_str()) {
            Some(value) => out.append(value.as_str()),
            None => return Err(cat3("'", key.as_str(), "'")),
        }
        assert(body.skip(end - start + 1).skip(1) =~= a@.skip(after + 1));
        i = after + 1;
    }
    assert(a@.skip(i as int) =~= Seq::empty());
    Ok(out)
}

/// The flag that makes a `mkfs` overwrite what is there, or nothing.
pub open spec fn force_flag(fs: Seq<char>) -> Seq<char> {
    let f = fold(fs);
    if holds(f, "ext"@) {
        "-F"@
    } else if f == "btrfs"@ || f == "xfs"@ || f == "reiserfs"@ || f == "swap"@ {
        "-f"@
    } else {
        Seq::empty()
    }
}

/// What is said of a type for which no such flag is known.
pub open spec fn flag_told<H: Host>(m: Disks<H>, fs: Seq<char>) -> Disks<H> {
    if force_flag(fs).len() == 0 {
        warned::<H>(m, "Force flag for "@ + fs + " is unknown."@)
    } else {
        m
    }
}

/// The flag that makes a `mkfs` overwrite what is there. That none is known is warned of.
pub fn lookup_force_flag<H: Host>(fs: &str, host: &mut H) -> (r: String)
    ensures
        r@ == force_flag(fs@),
        final(host).machine() == flag_told::<H>(old(host).machine(), fs@),
{
    proof {
        reveal_strlit("-F");
        reveal_strlit("-f");
    }
    let f = fold_of(fs);
    let f = f.as_str();
    if contains(f, "ext") {
        "-F".to_owned()
    } else if same(f, "btrfs") || same(f, "xfs") || same(f, "reiserfs") || same(f, "swap") {
        "-f".to_owned()
    } else {
        log_warn(host, cat3("Force flag for ", fs, " is unknown.").as_str());
        String::new()
    }
}

// ---------------------------------------------------------------------------
// The device

pub open spec fn block_at<H: Host>(m: Disks<H>, path: Seq<char>) -> (Disks<H>, bool) {
    let (w, a) = H::reply(m.world, Call::IsBlock(path));
    (asked(m, Call::IsBlock(path), w), a->Flag_0)
}

/// The device file of a numbered partition: behind a digit comes a `p`.
pub open spec fn numbered(device: Seq<char>, partition: Seq<char>) -> Seq<char> {
    (if device.len() > 0 && within(Class::Digit, device.last()) {
        device.push('p')
    } else {
        device
    }) + partition
}

fn numbered_of(device: &str, partition: &str) -> (r: String)
    ensures
        r@ == numbered(device@, partition@),
{
    let a = chars_of(device);
    let mut out = device.to_owned();
    if a.len() > 0 && Class::Digit.has(a[a.len() - 1]) {
        out.push('p');
    }
    out.append(partition);
    out
}

/// The filesystem that is asked for.
pub struct Request {
    pub label: Val,
    pub fs_type: Val,
    pub cmd: Val,
    pub opts: Val,
    pub replace: Val,
    pub overwrite: bool,
    pub partition: Seq<char>,
}

/// The request in a definition.
pub open spec fn request_of(cfg: Seq<(Seq<char>, Val)>) -> Request {
    Request {
        label: setting(cfg, "label"@, Val::Null),
        fs_type: setting(cfg, "filesystem"@, Val::Null),
        cmd: setting(cfg, "cmd"@, Val::Array(Seq::empty())),
        opts: setting(cfg, "extra_opts"@, Val::Array(Seq::empty())),
        replace: setting(cfg, "replace_fs"@, Val::Bool(false)),
        overwrite: truthy(setting(cfg, "overwrite"@, Val::Bool(false))),
        partition: match get(cfg, "partition"@) {
            Some(v) => show(v),
            None => "any"@,
        },
    }
}

pub open spec fn or_none(o: Option<Seq<char>>) -> Seq<char> {
    match o {
        Some(s) => s,
        None => "None"@,
    }
}

fn or_none_of(o: &Option<String>) -> (r: String)
    ensures
        r@ == or_none(opt_text(*o)),
{
    match o {
        Some(s) => s.clone(),
        None => "None".to_owned(),
    }
}

/// What is said of what is on a device, and whether a filesystem may go there.
pub open spec fn judged<H: Host>(m: Disks<H>, node: Seq<char>, tags: FsInfo, q: Request) -> (
    Disks<H>,
    Option<Seq<char>>,
) {
    let m1 = logged::<H>(
        m,
        "Device '"@ + node + "' has check_label='"@ + or_none(tags.label) + "' check_fstype="@ + or_none(
            tags.fs_type,
        ),
    );
    if column_is(tags.label, q.label) && column_is(tags.fs_type, q.fs_type) {
        let m2 = logged::<H>(m1, "Existing file system found at "@ + node);
        if q.overwrite {
            (logged::<H>(m2, "Destroying filesystem on "@ + node), Some(node))
        } else {
            (logged::<H>(m2, "Device "@ + node + " has required file system"@), None)
        }
    } else {
        (logged::<H>(m1, "Device "@ + node + " is cleared for formatting"@), Some(node))
    }
}

/// A device that is named, or a partition of it, if a filesystem may go there.
pub open spec fn named_target<H: Host>(m: Disks<H>, device: Seq<char>, q: Request) -> (
    Disks<H>,
    Result<Option<Seq<char>>, Seq<char>>,
) {
    let node = if is_digits(q.partition) {
        numbered(device, q.partition)
    } else {
        device
    };
    let (m1, there) = if is_digits(q.partition) {
        let (n, block) = block_at::<H>(m, node);
        if block {
            (
                logged::<H>(n, "Manual request of partition "@ + q.partition + " for "@ + node),
                true,
            )
        } else {
            (warned::<H>(n, "Path "@ + node + " does not exist or is not a block device"@), false)
        }
    } else {
        (m, true)
    };
    if !there {
        (m1, Ok(None))
    } else {
        let (m2, info) = filesystem::<H>(logged::<H>(m1, "Checking device "@ + node), node);
        match info {
            Err(e) => (m2, Err(e)),
            Ok(tags) => {
                let (m3, node) = judged::<H>(m2, node, tags, q);
                (m3, Ok(node))
            },
        }
    }
}

/// What is said of a node that was looked for, and whether a filesystem may go there.
pub open spec fn node_told<H: Host>(
    m: Disks<H>,
    device: Seq<char>,
    node: Option<Seq<char>>,
    reuse: bool,
    q: Request,
    shown: Seq<char>,
) -> (Disks<H>, Option<Seq<char>>) {
    let m1 = logged::<H>(m, "Automatic device for "@ + device + " identified as "@ + or_none(node));
    if reuse {
        (logged::<H>(m1, "Found filesystem match, skipping formatting."@), None)
    } else {
        match node {
            None => (
                logged::<H>(
                    m1,
                    "No device available that matches request. Skipping fs creation for "@ + shown,
                ),
                None,
            ),
            Some(node) => if truthy(q.replace) {
                (logged::<H>(m1, "Replacing file system on "@ + node + " as instructed."@), Some(node))
            } else {
                (m1, Some(node))
            },
        }
    }
}

/// A node that is looked for on a device.
pub open spec fn sought_target<H: Host>(m: Disks<H>, device: Seq<char>, q: Request, shown: Seq<char>) -> (
    Disks<H>,
    Result<Option<Seq<char>>, Seq<char>>,
) {
    let (m1, found) = find_node::<H>(
        logged::<H>(m, "Identifying device to create "@ + show(q.label) + " filesystem on"@),
        device,
        Wanted {
            fs_type: q.fs_type,
            label: q.label,
            label_match: fold(q.partition) != "any"@,
            replace_fs: q.replace,
        },
    );
    match found {
        Err(e) => (m1, Err(e)),
        Ok((node, reuse)) => {
            let (m2, node) = node_told::<H>(m1, device, node, reuse, q, shown);
            (m2, Ok(node))
        },
    }
}

/// The device that a filesystem is to go on, or nothing where there is nothing
/// to do: the partition that is named, one that is looked for, or all of it. The
/// definition is `shown` where nothing is found.
pub open spec fn target<H: Host>(m: Disks<H>, device: Seq<char>, q: Request, shown: Seq<char>) -> (
    Disks<H>,
    Result<Option<Seq<char>>, Seq<char>>,
) {
    let word = fold(q.partition);
    if q.partition.len() == 0 || is_digits(q.partition) {
        named_target::<H>(m, device, q)
    } else if word == "auto"@ || word == "any"@ {
        sought_target::<H>(m, device, q, shown)
    } else if word == "none"@ {
        (
            logged::<H>(m, "Using the raw device to place filesystem "@ + show(q.label) + " on"@),
            Ok(Some(device)),
        )
    } else {
        (logged::<H>(m, "Error in device identification handling."@), Ok(None))
    }
}

fn judge<H: Host>(
    host: &mut H,
    node: String,
    tags: &FsTags,
    label: &Node,
    fs_type: &Node,
    overwrite: bool,
    Ghost(q): Ghost<Request>,
) -> (r: Option<String>)
    requires
        q.label == label@,
        q.fs_type == fs_type@,
        q.overwrite == overwrite,
    ensures
        (final(host).machine(), opt_text(r)) == judged::<H>(
            old(host).machine(),
            node@,
            FsInfo { label: opt_text(tags.0), fs_type: opt_text(tags.1), uuid: opt_text(tags.2) },
            q,
        ),
{
    log_debug(
        host,
        cat6(
            "Device '",
            node.as_str(),
            "' has check_label='",
            or_none_of(&tags.0).as_str(),
            "' check_fstype=",
            or_none_of(&tags.1).as_str(),
        ).as_str(),
    );
    if py_eq(&tags.0, label) && py_eq(&tags.1, fs_type) {
        log_debug(host, cat2("Existing file system found at ", node.as_str()).as_str());
        if !overwrite {
            log_debug(host, cat3("Device ", node.as_str(), " has required file system").as_str());
            return None;
        }
        log_debug(host, cat2("Destroying filesystem on ", node.as_str()).as_str());
    } else {
        log_debug(host, cat3("Device ", node.as_str(), " is cleared for formatting").as_str());
    }
    Some(node)
}

fn named_target_of<H: Host>(
    host: &mut H,
    device: &str,
    partition: &str,
    label: &Node,
    fs_type: &Node,
    overwrite: bool,
    Ghost(q): Ghost<Request>,
) -> (r: Result<Option<String>, String>)
    requires
        q.partition == partition@,
        q.label == label@,
        q.fs_type == fs_type@,
        q.overwrite == overwrite,
    ensures
        (final(host).machine(), maybe_text(r)) == named_target::<H>(old(host).machine(), device@, q),
{
    let is_number = py_isdigit(partition);
    let node = if is_number {
        numbered_of(device, partition)
    } else {
        device.to_owned()
    };
    if is_number {
        if !host.is_block_device(node.as_str()) {
            log_warn(host, cat3("Path ", node.as_str(), " does not exist or is not a block device").as_str());
            return Ok(None);
        }
        log_debug(host, cat4("Manual request of partition ", partition, " for ", node.as_str()).as_str());
    }
    log_debug(host, cat2("Checking device ", node.as_str()).as_str());
    match check_fs(host, node.as_str()) {
        Err(e) => Err(e),
        Ok(tags) => Ok(judge(host, node, &tags, label, fs_type, overwrite, Ghost(q))),
    }
}

fn tell_node<H: Host>(
    host: &mut H,
    device: &str,
    node: Option<String>,
    reuse: bool,
    replace: &Node,
    shown: &str,
    Ghost(q): Ghost<Request>,
) -> (r: Option<String>)
    requires
        q.replace == replace@,
    ensures
        (final(host).machine(), opt_text(r)) == node_told::<H>(
            old(host).machine(),
            device@,
            opt_text(node),
            reuse,
            q,
            shown@,
        ),
{
    log_debug(
        host,
        cat4("Automatic device for ", device, " identified as ", or_none_of(&node).as_str()).as_str(),
    );
    if reuse {
        log_debug(host, "Found filesystem match, skipping formatting.");
        return None;
    }
    match node {
        None => {
            log_debug(
                host,
                cat2("No device available that matches request. Skipping fs creation for ", shown).as_str(),
            );
            None
        },
        Some(node) => {
            if py_truthy(replace) {
                log_debug(host, cat3("Replacing file system on ", node.as_str(), " as instructed.").as_str());
            }
            Some(node)
        },
    }
}

fn target_of<H: Host>(
    host: &mut H,
    device: &str,
    partition: &str,
    label: &Node,
    fs_type: &Node,
    replace: &Node,
    overwrite: bool,
    shown: &str,
    Ghost(q): Ghost<Request>,
) -> (r: Result<Option<String>, String>)
    requires
        q.partition == partition@,
        q.label == label@,
        q.fs_type == fs_type@,
        q.replace == replace@,
        q.overwrite == overwrite,
    ensures
        (final(host).machine(), maybe_text(r)) == target::<H>(old(host).machine(), device@, q, shown@),
{
    let word = fold_of(partition);
    let word = word.as_str();
    if partition.is_empty() || py_isdigit(partition) {
        named_target_of(host, device, partition, label, fs_type, overwrite, Ghost(q))
    } else if same(word, "auto") || same(word, "any") {
        log_debug(host, cat3("Identifying device to create ", py_str(label).as_str(), " filesystem on").as_str());
        match find_device_node(host, device, fs_type, label, !same(word, "any"), replace) {
            Err(e) => Err(e),
            Ok((node, reuse)) => Ok(tell_node(host, device, node, reuse, replace, shown, Ghost(q))),
        }
    } else if same(word, "none") {
        log_debug(
            host,
            cat3("Using the raw device to place filesystem ", py_str(label).as_str(), " on").as_str(),
        );
        Ok(Some(device.to_owned()))
    } else {
        log_debug(host, "Error in device identification handling.");
        Ok(None)
    }
}

// ---------------------------------------------------------------------------
// The command

/// The extra options as words of a command.
pub open spec fn option_words(opts: Val) -> Result<Seq<Seq<char>>, Seq<char>> {
    match opts {
        Val::Array(items) => Ok(Seq::new(items.len(), |i: int| show(items[i]))),
        Val::Text(s) => Ok(Seq::new(s.len(), |i: int| seq![s[i]])),
        _ => Err("'"@ + kind_text(opts) + "' object is not iterable"@),
    }
}

fn option_words_of(opts: &Node) -> (r: Result<Vec<String>, String>)
    ensures
        match r {
            Ok(v) => option_words(opts@) == Ok::<Seq<Seq<char>>, Seq<char>>(texts(v@)),
            Err(e) => option_words(opts@) == Err::<Seq<Seq<char>>, Seq<char>>(e@),
        },
{
    broadcast use texts_push;
    let mut out: Vec<String> = Vec::new();
    match opts {
        Node::Array(items) => {
            let ghost all = vals(items@);
            let ghost want = Seq::new(all.len(), |i: int| show(all[i]));
            let mut i: usize = 0;
            while i < items.len()
                invariant
                    i <= items@.len(),
                    all == vals(items@),
                    want == Seq::new(all.len(), |i: int| show(all[i])),
                    texts(out@) == want.take(i as int),
                decreases items.len() - i,
            {
                assert(all[i as int] == items@[i as int]@);
                out.push(py_str(&items[i]));
                i += 1;
                assert(want.take(i as int) =~= want.take(i - 1).push(want[i - 1]));
            }
            assert(want.take(i as int) =~= want);
            Ok(out)
        },
        Node::Text(s) => {
            let a = chars_of(s.as_str());
            let ghost want = Seq::new(s@.len(), |i: int| seq![s@[i]]);
            let mut i: usize = 0;
            while i < a.len()
                invariant
                    i <= a@.len(),
                    a@ == s@,
                    want == Seq::new(s@.len(), |i: int| seq![s@[i]]),
                    texts(out@) == want.take(i as int),
                decreases a.len() - i,
            {
                out.push(char_text(a[i]));
                i += 1;
                assert(want.take(i as int) =~= want.take(i - 1).push(want[i - 1]));
            }
            assert(want.take(i as int) =~= want);
            Ok(out)
        },
        other => Err(cat3("'", kind_name(other).as_str(), "' object is not iterable")),
    }
}

/// Looks for the program that makes a type of filesystem.
pub open spec fn maker<H: Host>(m: Disks<H>, fs_type: Seq<char>) -> (Disks<H>, Option<Seq<char>>) {
    let (m1, found) = which::<H>(m, "mkfs."@ + fs_type);
    match found {
        Some(_) => (m1, found),
        None => which::<H>(m1, "mk"@ + fs_type),
    }
}

/// What is said before a filesystem is made.
pub open spec fn creating_text(label: Val, device: Seq<char>) -> Seq<char> {
    "Creating file system "@ + show(label) + " on "@ + device
}

/// Runs the program that makes a filesystem on a device. Without the program
/// there is nothing to do but to warn.
pub open spec fn make_with_program<H: Host>(m: Disks<H>, device: Seq<char>, q: Request) -> (Disks<H>, Result<(), Seq<char>>) {
    let (m1, program) = maker::<H>(m, show(q.fs_type));
    match program {
        None => (
            warned::<H>(
                m1,
                "Cannot create fstype '"@ + show(q.fs_type) + "'.  No mkfs."@ + show(q.fs_type) + " command"@,
            ),
            Ok(()),
        ),
        Some(program) => {
            let (n, whole) = if q.overwrite {
                (m1, Ok::<bool, Seq<char>>(true))
            } else {
                let (n, kind) = listed_kind::<H>(m1, device);
                (
                    n,
                    match kind {
                        Err(e) => Err(e),
                        Ok(kind) => Ok(kind is Some && fold(kind->0) == "disk"@),
                    },
                )
            };
            let m2 = if whole == Ok::<bool, Seq<char>>(true) {
                flag_told::<H>(n, show(q.fs_type))
            } else {
                n
            };
            match whole {
                Err(e) => (m2, Err(e)),
                Ok(forced) => match option_words(q.opts) {
                    Err(e) => (m2, Err(e)),
                    Ok(options) => {
                        let flag = force_flag(show(q.fs_type));
                        let argv = seq![program] + (if truthy(q.label) {
                            seq!["-L"@, show(q.label)]
                        } else {
                            Seq::empty()
                        }) + (if forced && flag.len() > 0 {
                            seq![flag]
                        } else {
                            Seq::empty()
                        }) + options + seq![device];
                        let (m3, out) = run::<H>(logged::<H>(m2, creating_text(q.label, device)), argv);
                        (
                            m3,
                            match out {
                                Ok(_) => Ok(()),
                                Err(e) => Err(
                                    "Failed to exec of '"@ + list_text(argv) + "':\n"@ + error_text(e),
                                ),
                            },
                        )
                    },
                },
            }
        },
    }
}

/// The report on a command line that failed in the shell.
pub open spec fn shell_report(e: Failed) -> Seq<char> {
    report(
        if e.argv.len() > 0 {
            e.argv[0]
        } else {
            Seq::empty()
        },
        e,
    )
}

/// Warns of what has no effect beside a command line.
pub open spec fn ignored_told<H: Host>(m: Disks<H>, q: Request, line: Seq<char>) -> Disks<H> {
    let m1 = if q.overwrite {
        warned::<H>(m, "fs_setup:overwrite ignored because cmd was specified: "@ + line)
    } else {
        m
    };
    if truthy(q.opts) {
        warned::<H>(m1, "fs_setup:extra_opts ignored because cmd was specified: "@ + line)
    } else {
        m1
    }
}

/// Runs a command line that the configuration gives, filled in.
pub open spec fn make_with_command<H: Host>(m: Disks<H>, device: Seq<char>, q: Request) -> (Disks<H>, Result<(), Seq<char>>) {
    match q.cmd {
        Val::Text(template) => match filled_in(
            template,
            seq![("label"@, show(q.label)), ("filesystem"@, show(q.fs_type)), ("device"@, device)],
        ) {
            Err(e) => (m, Err(e)),
            Ok(line) => {
                let n = logged::<H>(ignored_told::<H>(m, q, line), creating_text(q.label, device));
                let (w, a) = H::reply(n.world, Call::Shell(line));
                (
                    asked(n, Call::Shell(line), w),
                    match a->Output_0 {
                        Ok(_) => Ok(()),
                        Err(e) => Err("Failed to exec of '"@ + line + "':\n"@ + shell_report(e)),
                    },
                )
            },
        },
        _ => (m, Err("unsupported operand type(s) for %: '"@ + kind_text(q.cmd) + "' and 'dict'"@)),
    }
}

/// Makes a filesystem on a device that was identified.
pub open spec fn make_on<H: Host>(before: Disks<H>, device: Seq<char>, q: Request) -> (
    Disks<H>,
    Result<(), Seq<char>>,
) {
    let m = logged::<H>(
        before,
        "File system type '"@ + show(q.fs_type) + "' with label '"@ + show(q.label) + "' will be created on "@
            + device,
    );
    if device.len() == 0 {
        (warned::<H>(m, "Device is not known: "@ + device), Ok(()))
    } else if !truthy(q.fs_type) && !truthy(q.cmd) {
        (
            m,
            Err(
                "No way to create filesystem '"@ + show(q.label) + "'. fs_type or fs_cmd must be set."@,
            ),
        )
    } else if truthy(q.cmd) {
        make_with_command::<H>(m, device, q)
    } else {
        make_with_program::<H>(m, device, q)
    }
}

/// Makes the filesystem that a definition asks for.
pub open spec fn make_fs<H: Host>(m: Disks<H>, cfg: Seq<(Seq<char>, Val)>) -> (Disks<H>, Result<(), Seq<char>>) {
    let q = request_of(cfg);
    let device = setting(cfg, "device"@, Val::Null);
    match device {
        Val::Text(_) | Val::Int(_) | Val::Float(_) => {
            let (m1, there) = ready::<H>(m, show(device));
            match there {
                Err(e) => (m1, Err(e)),
                Ok(()) => {
                    let (m2, resolved) = resolve::<H>(m1, show(device));
                    let (m3, node) = target::<H>(
                        logged::<H>(m2, "Checking "@ + resolved + " against default devices"@),
                        resolved,
                        q,
                        repr(Val::Object(cfg)),
                    );
                    match node {
                        Err(e) => (m3, Err(e)),
                        Ok(None) => (m3, Ok(())),
                        Ok(Some(node)) => make_on::<H>(m3, node, q),
                    }
                },
            }
        },
        _ => (
            exists_at::<H>(m, show(device)).0,
            Err(
                "stat: path should be string, bytes, os.PathLike or integer, not "@ + kind_text(device),
            ),
        ),
    }
}

fn run_command<H: Host>(
    host: &mut H,
    device: &str,
    label: &Node,
    fs_type: &Node,
    cmd: &Node,
    opts: &Node,
    overwrite: bool,
    Ghost(q): Ghost<Request>,
) -> (r: Result<(), String>)
    requires
        q.label == label@,
        q.fs_type == fs_type@,
        q.cmd == cmd@,
        q.opts == opts@,
        q.overwrite == overwrite,
    ensures
        (final(host).machine(), unit_result(r)) == make_with_command::<H>(old(host).machine(), device@, q),
{
    let template = match cmd {
        Node::Text(template) => template,
        _ => {
            return Err(
                cat3("unsupported operand type(s) for %: '", kind_name(cmd).as_str(), "' and 'dict'"),
            );
        },
    };
    let mut mapping: Vec<(String, String)> = Vec::new();
    mapping.push(("label".to_owned(), py_str(label)));
    mapping.push(("filesystem".to_owned(), py_str(fs_type)));
    mapping.push(("device".to_owned(), device.to_owned()));
    assert(text_table(mapping@) =~= seq![
        ("label"@, show(q.label)),
        ("filesystem"@, show(q.fs_type)),
        ("device"@, device@),
    ]);
    let line = match percent_format(template.as_str(), &mapping) {
        Ok(line) => line,
        Err(e) => return Err(e),
    };
    if overwrite {
        log_warn(host, cat2("fs_setup:overwrite ignored because cmd was specified: ", line.as_str()).as_str());
    }
    if py_truthy(opts) {
        log_warn(host, cat2("fs_setup:extra_opts ignored because cmd was specified: ", line.as_str()).as_str());
    }
    log_debug(host, cat4("Creating file system ", py_str(label).as_str(), " on ", device).as_str());
    match host.subp_shell(line.as_str()) {
        Ok(_) => Ok(()),
        Err(e) => {
            let first = if e.argv.len() > 0 {
                e.argv[0].clone()
            } else {
                String::new()
            };
            assert(first@ =~= if e@.argv.len() > 0 {
                e@.argv[0]
            } else {
                Seq::empty()
            });
            Err(cat4("Failed to exec of '", line.as_str(), "':\n", e.report_as(first.as_str()).as_str()))
        },
    }
}

fn run_program<H: Host>(
    host: &mut H,
    device: &str,
    label: &Node,
    fs_type: &Node,
    opts: &Node,
    overwrite: bool,
    Ghost(q): Ghost<Request>,
) -> (r: Result<(), String>)
    requires
        q.label == label@,
        q.fs_type == fs_type@,
        q.opts == opts@,
        q.overwrite == overwrite,
    ensures
        (final(host).machine(), unit_result(r)) == make_with_program::<H>(old(host).machine(), device@, q),
{
    broadcast use texts_push;
    let fs_text = py_str(fs_type);
    let mut program = host.which(cat2("mkfs.", fs_text.as_str()).as_str());
    if program.is_none() {
        // Swap space is made by `mkswap`.
        program = host.which(cat2("mk", fs_text.as_str()).as_str());
    }
    let program = match program {
        Some(program) => program,
        None => {
            log_warn(
                host,
                cat5(
                    "Cannot create fstype '",
                    fs_text.as_str(),
                    "'.  No mkfs.",
                    fs_text.as_str(),
                    " command",
                ).as_str(),
            );
            return Ok(());
        },
    };
    let forced = if overwrite {
        true
    } else {
        match listed_type(host, device) {
            Ok(Some(kind)) => same(fold_of(kind.as_str()).as_str(), "disk"),
            Ok(None) => false,
            Err(e) => return Err(e),
        }
    };
    let flag = if forced {
        lookup_force_flag(fs_text.as_str(), host)
    } else {
        String::new()
    };
    let options = match option_words_of(opts) {
        Ok(options) => options,
        Err(e) => return Err(e),
    };
    let mut command: Vec<String> = Vec::new();
    command.push(program);
    if py_truthy(label) {
        command.push("-L".to_owned());
        command.push(py_str(label));
    }
    if forced && !flag.as_str().is_empty() {
        command.push(flag);
    }
    let ghost head = texts(command@);
    let mut i: usize = 0;
    assert(texts(options@).take(0) =~= Seq::empty());
    assert(head + Seq::<Seq<char>>::empty() =~= head);
    while i < options.len()
        invariant
            i <= options@.len(),
            texts(command@) == head + texts(options@).take(i as int),
        decreases options.len() - i,
    {
        let ghost before = texts(command@);
        command.push(options[i].clone());
        assert(texts(command@) =~= before.push(options@[i as int]@));
        i += 1;
        assert(texts(options@).take(i as int) =~= texts(options@).take(i - 1).push(options@[i - 1]@));
        assert(texts(command@) =~= head + texts(options@).take(i as int));
    }
    assert(texts(options@).take(i as int) =~= texts(options@));
    command.push(device.to_owned());
    proof {
        let want = seq![program@] + (if truthy(q.label) {
            seq!["-L"@, show(q.label)]
        } else {
            Seq::empty()
        }) + (if forced && flag@.len() > 0 {
            seq![flag@]
        } else {
            Seq::empty()
        });
        assert(head =~= want);
        assert(texts(command@) =~= want + texts(options@) + seq![device@]);
    }
    log_debug(host, cat4("Creating file system ", py_str(label).as_str(), " on ", device).as_str());
    match run_of(host, &command) {
        Ok(_) => Ok(()),
        Err(e) => Err(cat4("Failed to exec of '", py_list(&command).as_str(), "':\n", e.to_text().as_str())),
    }
}

pub fn mkfs<H: Host>(host: &mut H, fs_cfg: &Object) -> (r: Result<(), String>)
    ensures
        (final(host).machine(), unit_result(r)) == make_fs::<H>(old(host).machine(), fs_cfg@),
{
    let ghost q = request_of(fs_cfg@);
    let label = setting_of(fs_cfg, "label", Node::Null);
    let device_cfg = setting_of(fs_cfg, "device", Node::Null);
    let partition = match fs_cfg.get("partition") {
        Some(v) => py_str(v),
        None => "any".to_owned(),
    };
    let fs_type = setting_of(fs_cfg, "filesystem", Node::Null);
    let fs_cmd = setting_of(fs_cfg, "cmd", Node::Array(Vec::new()));
    let fs_opts = setting_of(fs_cfg, "extra_opts", Node::Array(Vec::new()));
    assert(vals(Seq::<Node>::empty()) =~= Seq::empty());
    let fs_replace = setting_of(fs_cfg, "replace_fs", Node::Bool(false));
    let overwrite = py_truthy(&setting_of(fs_cfg, "overwrite", Node::Bool(false)));
    let device_name = match &device_cfg {
        Node::Text(text) => text.clone(),
        Node::Int(n) => dec_int_of(*n),
        Node::Float(text) => text.clone(),
        other => {
            let _ = host.path_exists(py_str(other).as_str());
            return Err(
                cat2("stat: path should be string, bytes, os.PathLike or integer, not ", kind_name(other).as_str()),
            );
        },
    };
    assert(device_name@ == show(device_cfg@));
    match assert_and_settle_device(host, device_name.as_str()) {
        Ok(()) => {},
        Err(e) => return Err(e),
    }
    let device = host.realpath(device_name.as_str());
    log_debug(host, cat3("Checking ", device.as_str(), " against default devices").as_str());
    let shown = repr_of(&Node::Object(fs_cfg.clone()));
    let device = match target_of(
        host,
        device.as_str(),
        partition.as_str(),
        &label,
        &fs_type,
        &fs_replace,
        overwrite,
        shown.as_str(),
        Ghost(q),
    ) {
        Err(e) => return Err(e),
        Ok(None) => return Ok(()),
        Ok(Some(device)) => device,
    };
    log_debug(
        host,
        cat6(
            "File system type '",
            py_str(&fs_type).as_str(),
            "' with label '",
            py_str(&label).as_str(),
            "' will be created on ",
            device.as_str(),
        ).as_str(),
    );
    if device.as_str().is_empty() {
        log_warn(host, cat2("Device is not known: ", device.as_str()).as_str());
        return Ok(());
    }
    if !py_truthy(&fs_type) && !py_truthy(&fs_cmd) {
        return Err(
            cat3("No way to create filesystem '", py_str(&label).as_str(), "'. fs_type or fs_cmd must be set."),
        );
    }
    if py_truthy(&fs_cmd) {
        run_command(host, device.as_str(), &label, &fs_type, &fs_cmd, &fs_opts, overwrite, Ghost(q))
    } else {
        run_program(host, device.as_str(), &label, &fs_type, &fs_opts, overwrite, Ghost(q))
    }
}

}
