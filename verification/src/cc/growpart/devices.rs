//! The devices to grow, one by one.

use vstd::prelude::*;

use crate::b64::{decode, decoded};
use crate::cc::growpart::host::{
    ask_cmdline, ask_find_devs_with, ask_is_container, ask_mount_info, ask_path_exists, ask_read_keydata,
    ask_read_text, ask_realpath, ask_report, ask_stat_mode, ask_subp, ask_unlink_keydata, ask_which, failure_told,
    log_debug, log_failure, log_warn, logged, text_result, warned, Call, Grown, Host,
};
use crate::cc::growpart::resize::{grow, opt_str, run, run_of, ResizeError, ResizeFailure, Resizer, Sizes};
use crate::cc::growpart::{error_text, list_text, py_list, Failed};
use crate::json::{json_of, parse_json};
use crate::machine::{text_table, Level};
use crate::number::{dec, dec_int, dec_int_of, dec_of};
use crate::paths::{basename, dirname, join_path, joined, last_name, parent};
use crate::rootdev::{root_from_cmdline, root_of, Root, RootSpec};
use crate::show::{kind_name, kind_text, py_str, show};
use crate::space::{trim_end, trim_end_of, Class};
use crate::text::{
    argv3, argv4, argv5, cat2, cat3, cat4, cat5, cat6, opt_text, same, split, split_at_first, split_on, split_once,
    starts, starts_with, texts,
};
use crate::value::{get, vals, vals_push, Node, Val};

verus! {

/// What came of a device.
#[derive(Debug, Clone, Copy, PartialEq, Eq, Structural)]
pub enum Resize {
    Skipped,
    Changed,
    Nochange,
    Failed,
}

pub open spec fn resize_name(r: Resize) -> Seq<char> {
    match r {
        Resize::Skipped => "SKIPPED"@,
        Resize::Changed => "CHANGED"@,
        Resize::Nochange => "NOCHANGE"@,
        Resize::Failed => "FAILED"@,
    }
}

impl Resize {
    pub fn name(self) -> (r: &'static str)
        ensures
            r@ == resize_name(self),
    {
        match self {
            Resize::Skipped => "SKIPPED",
            Resize::Changed => "CHANGED",
            Resize::Nochange => "NOCHANGE",
            Resize::Failed => "FAILED",
        }
    }
}

/// What came of one entry of the list of devices.
#[derive(Debug, PartialEq)]
pub struct Outcome {
    pub devent: Node,
    pub action: Resize,
    pub message: String,
}

/// The mathematical form of an [`Outcome`].
pub struct Row {
    pub devent: Val,
    pub action: Resize,
    pub message: Seq<char>,
}

impl View for Outcome {
    type V = Row;

    open spec fn view(&self) -> Row {
        Row { devent: self.devent@, action: self.action, message: self.message@ }
    }
}

pub open spec fn outcomes(v: Seq<Outcome>) -> Seq<Row> {
    Seq::new(v.len(), |i: int| v[i]@)
}

pub broadcast proof fn outcomes_push(v: Seq<Outcome>, x: Outcome)
    ensures
        #[trigger] outcomes(v.push(x)) == outcomes(v).push(x@),
{
    assert(outcomes(v.push(x)) =~= outcomes(v).push(x@));
}

// ---------------------------------------------------------------------------
// From an entry to a device

/// The root device that the kernel was started with.
pub open spec fn root_device<H: Host>(m: Grown<H>, cmdline: Seq<char>) -> (Grown<H>, Option<Seq<char>>) {
    match root_of(cmdline) {
        RootSpec::Unnamed => (m, None),
        RootSpec::At(path) => (m, Some(path)),
        RootSpec::Partition(path, criterion) => {
            let (m1, there) = ask_path_exists::<H>(m, path);
            if there {
                (m1, Some(path))
            } else {
                let (m2, devs) = ask_find_devs_with::<H>(m1, criterion);
                (
                    m2,
                    if devs.len() > 0 {
                        Some(devs[0])
                    } else {
                        Some(path)
                    },
                )
            }
        },
    }
}

fn rootdev_from_cmdline<H: Host>(host: &mut H, cmdline: &str) -> (r: Option<String>)
    ensures
        (final(host).machine(), opt_text(r)) == root_device::<H>(old(host).machine(), cmdline@),
{
    match root_from_cmdline(cmdline) {
        Root::Unnamed => None,
        Root::At(path) => Some(path),
        Root::Partition(path, criterion) => {
            if host.path_exists(path.as_str()) {
                return Some(path);
            }
            let devs = host.find_devs_with(criterion.as_str());
            if devs.len() > 0 {
                assert(texts(devs@)[0] == devs@[0]@);
                Some(devs[0].clone())
            } else {
                Some(path)
            }
        },
    }
}

/// Why an entry has no device: it is passed over, or the module ends.
pub enum DevError {
    Value(String),
    Fatal(String),
}

/// The mathematical form of a [`DevError`].
pub enum NoDevice {
    Value(Seq<char>),
    Fatal(Seq<char>),
}

pub open spec fn device_result(r: Result<(String, Option<String>), DevError>) -> Result<
    (Seq<char>, Option<Seq<char>>),
    NoDevice,
> {
    match r {
        Ok(p) => Ok((p.0@, opt_text(p.1))),
        Err(DevError::Value(e)) => Err(NoDevice::Value(e@)),
        Err(DevError::Fatal(e)) => Err(NoDevice::Fatal(e@)),
    }
}

/// The device of an entry and, where it is a mount point, the filesystem on it.
pub open spec fn entry_device<H: Host>(m: Grown<H>, devent: Val) -> (
    Grown<H>,
    Result<(Seq<char>, Option<Seq<char>>), NoDevice>,
) {
    match devent {
        Val::Text(entry) => if starts(entry, "/dev/"@) {
            (m, Ok((entry, None)))
        } else {
            let (m1, mount) = ask_mount_info::<H>(m, entry);
            match mount {
                None => (m1, Err(NoDevice::Value("Could not determine device of '%s' % dev_ent"@))),
                Some(mount) => {
                    let (m2, container) = ask_is_container::<H>(m1);
                    if mount.devpth == "/dev/root"@ && !container {
                        let (m3, cmdline) = ask_cmdline::<H>(m2);
                        let (m4, found) = root_device::<H>(m3, cmdline);
                        match found {
                            Some(device) => (m4, Ok((device, Some(mount.fs_type)))),
                            None => (
                                ask_path_exists::<H>(m4, "None"@).0,
                                Err(
                                    NoDevice::Fatal(
                                        "stat: path should be string, bytes, os.PathLike or integer, not NoneType"@,
                                    ),
                                ),
                            ),
                        }
                    } else {
                        (m2, Ok((mount.devpth, Some(mount.fs_type))))
                    }
                },
            }
        },
        _ => (m, Err(NoDevice::Fatal("'"@ + kind_text(devent) + "' object has no attribute 'startswith'"@))),
    }
}

pub fn devent2dev<H: Host>(host: &mut H, devent: &Node) -> (r: Result<(String, Option<String>), DevError>)
    ensures
        (final(host).machine(), device_result(r)) == entry_device::<H>(old(host).machine(), devent@),
{
    let entry = match devent {
        Node::Text(entry) => entry.as_str(),
        other => {
            return Err(DevError::Fatal(cat3("'", kind_name(other).as_str(), "' object has no attribute 'startswith'")));
        },
    };
    if starts_with(entry, "/dev/") {
        return Ok((entry.to_owned(), None));
    }
    let mount = match host.mount_info(entry) {
        Some(mount) => mount,
        None => return Err(DevError::Value("Could not determine device of '%s' % dev_ent".to_owned())),
    };
    let container = host.is_container();
    if same(mount.devpth.as_str(), "/dev/root") && !container {
        let cmdline = host.cmdline();
        return match rootdev_from_cmdline(host, cmdline.as_str()) {
            Some(found) => Ok((found, Some(mount.fs_type))),
            None => {
                let _ = host.path_exists("None");
                Err(
                    DevError::Fatal(
                        "stat: path should be string, bytes, os.PathLike or integer, not NoneType".to_owned(),
                    ),
                )
            },
        };
    }
    Ok((mount.devpth, Some(mount.fs_type)))
}

// ---------------------------------------------------------------------------
// Partitions

/// Why a device is no partition of a disk.
pub enum PartError {
    Skip(String),
    Fatal(String),
}

/// The mathematical form of a [`PartError`].
pub enum NoPart {
    Skip(Seq<char>),
    Fatal(Seq<char>),
}

pub open spec fn part_result(r: Result<(String, String), PartError>) -> Result<(Seq<char>, Seq<char>), NoPart> {
    match r {
        Ok(p) => Ok((p.0@, p.1@)),
        Err(PartError::Skip(e)) => Err(NoPart::Skip(e@)),
        Err(PartError::Fatal(e)) => Err(NoPart::Fatal(e@)),
    }
}

/// The disk that a partition is on, and its number, as the kernel has them.
pub open spec fn part_info<H: Host>(m: Grown<H>, devpath: Seq<char>) -> (
    Grown<H>,
    Result<(Seq<char>, Seq<char>), NoPart>,
) {
    let (m1, rpath) = ask_realpath::<H>(m, devpath);
    let syspath = "/sys/class/block/"@ + last_name(rpath);
    let (m2, known) = ask_path_exists::<H>(m1, syspath);
    if !known {
        (m2, Err(NoPart::Skip(devpath + " had no syspath ("@ + syspath + ")"@)))
    } else {
        let ptpath = joined(syspath, "partition"@);
        let (m3, is_part) = ask_path_exists::<H>(m2, ptpath);
        if !is_part {
            (m3, Err(NoPart::Skip(devpath + " not a partition"@)))
        } else {
            let (m4, number) = ask_read_text::<H>(m3, ptpath);
            match number {
                Err(e) => (m4, Err(NoPart::Fatal(e))),
                Ok(number) => {
                    let (m5, rsyspath) = ask_realpath::<H>(m4, syspath);
                    let (m6, majmin) = ask_read_text::<H>(m5, joined(parent(rsyspath), "dev"@));
                    match majmin {
                        Err(e) => (m6, Err(NoPart::Fatal(e))),
                        Ok(majmin) => {
                            let (m7, disk) = ask_realpath::<H>(m6, "/dev/block/"@ + trim_end(Class::Space, majmin));
                            (m7, Ok((disk, trim_end(Class::Space, number))))
                        },
                    }
                },
            }
        }
    }
}

pub fn device_part_info<H: Host>(host: &mut H, devpath: &str) -> (r: Result<(String, String), PartError>)
    ensures
        (final(host).machine(), part_result(r)) == part_info::<H>(old(host).machine(), devpath@),
{
    let rpath = host.realpath(devpath);
    let syspath = cat2("/sys/class/block/", basename(rpath.as_str()).as_str());
    if !host.path_exists(syspath.as_str()) {
        return Err(PartError::Skip(cat4(devpath, " had no syspath (", syspath.as_str(), ")")));
    }
    let ptpath = join_path(syspath.as_str(), "partition");
    if !host.path_exists(ptpath.as_str()) {
        return Err(PartError::Skip(cat2(devpath, " not a partition")));
    }
    let number = match host.read_text(ptpath.as_str()) {
        Ok(text) => trim_end_of(Class::Space, text.as_str()),
        Err(e) => return Err(PartError::Fatal(e)),
    };
    let rsyspath = host.realpath(syspath.as_str());
    let devfile = join_path(dirname(rsyspath.as_str()).as_str(), "dev");
    let majmin = match host.read_text(devfile.as_str()) {
        Ok(text) => trim_end_of(Class::Space, text.as_str()),
        Err(e) => return Err(PartError::Fatal(e)),
    };
    let disk = host.realpath(cat2("/dev/block/", majmin.as_str()).as_str());
    Ok((disk, number))
}

// ---------------------------------------------------------------------------
// Mapped devices

/// The device-mapper node behind a device, where it is a mapped device.
pub open spec fn mapped_node<H: Host>(m: Grown<H>, device: Seq<char>) -> (Grown<H>, Option<Seq<char>>) {
    let (m1, rpath) = ask_realpath::<H>(m, device);
    if starts(rpath, "/dev/dm-"@) {
        (
            ask_report::<H>(
                m1,
                Level::Debug,
                "__init__.py"@,
                device + " is a mapped device pointing to "@ + rpath,
            ),
            Some(rpath),
        )
    } else {
        (m1, None)
    }
}

fn get_mapped_device<H: Host>(host: &mut H, blockdev: &str) -> (r: Option<String>)
    ensures
        (final(host).machine(), opt_text(r)) == mapped_node::<H>(old(host).machine(), blockdev@),
{
    let rpath = host.realpath(blockdev);
    if starts_with(rpath.as_str(), "/dev/dm-") {
        let text = cat3(blockdev, " is a mapped device pointing to ", rpath.as_str());
        host.report(Level::Debug, "__init__.py", text.as_str());
        Some(rpath)
    } else {
        None
    }
}

/// Whether a mapped device is an encrypted volume on a partition. Without the
/// tool, or where it does not know the device, it is not.
pub open spec fn encrypted<H: Host>(m: Grown<H>, device: Seq<char>, partition: Seq<char>) -> (Grown<H>, bool) {
    let (m1, tool) = ask_which::<H>(m, "cryptsetup"@);
    if !tool {
        (logged::<H>(m1, "cryptsetup not found. Assuming no encrypted partitions"@), false)
    } else {
        let (m2, status) = run::<H>(m1, seq!["cryptsetup"@, "status"@, device]);
        match status {
            Err(e) => (
                if e.exit_code == Some(4int) {
                    logged::<H>(m2, "Determined that "@ + device + " is not encrypted"@)
                } else {
                    warned::<H>(m2, odd_code_text(e.exit_code))
                },
                false,
            ),
            Ok(_) => {
                let (m3, luks) = run::<H>(m2, seq!["cryptsetup"@, "isLuks"@, partition]);
                if luks is Ok {
                    (logged::<H>(m3, "Determined that "@ + device + " is encrypted"@), true)
                } else {
                    (m3, false)
                }
            },
        }
    }
}

/// What is said of an exit code that is not known.
pub open spec fn odd_code_text(code: Option<int>) -> Seq<char> {
    "Received unexpected exit code "@ + (match code {
        Some(n) => dec_int(n),
        None => "None"@,
    }) + " from cryptsetup status. Assuming no encrypted partitions."@
}

fn is_encrypted<H: Host>(host: &mut H, blockdev: &str, partition: &str) -> (r: bool)
    ensures
        (final(host).machine(), r) == encrypted::<H>(old(host).machine(), blockdev@, partition@),
{
    if !host.which("cryptsetup") {
        log_debug(host, "cryptsetup not found. Assuming no encrypted partitions");
        return false;
    }
    match run_of(host, &argv3("cryptsetup", "status", blockdev)) {
        Ok(_) => {},
        Err(e) => {
            let code = match e.exit_code {
                Some(n) => {
                    if n == 4 {
                        log_debug(host, cat3("Determined that ", blockdev, " is not encrypted").as_str());
                        return false;
                    }
                    dec_int_of(n as i128)
                },
                None => "None".to_owned(),
            };
            log_warn(
                host,
                cat3(
                    "Received unexpected exit code ",
                    code.as_str(),
                    " from cryptsetup status. Assuming no encrypted partitions.",
                ).as_str(),
            );
            return false;
        },
    }
    if run_of(host, &argv3("cryptsetup", "isLuks", partition)).is_ok() {
        log_debug(host, cat3("Determined that ", blockdev, " is encrypted").as_str());
        return true;
    }
    false
}

pub open spec fn deps_command(device: Seq<char>) -> Seq<Seq<char>> {
    seq!["dmsetup"@, "deps"@, "--options=devname"@, device]
}

/// The partition named in what `dmsetup` printed: the only one there is.
pub open spec fn sole_dependency(out: Seq<char>, device: Seq<char>) -> Result<Seq<char>, Seq<char>> {
    if !starts(out, "1 depend"@) {
        Err("Expecting '1 dependencies' from 'dmsetup'. Received: "@ + out)
    } else {
        match split_once(out, ": ("@) {
            Some((_, rest)) => Ok("/dev/"@ + split(rest, ")"@)[0]),
            None => Err(
                "Ran `"@ + list_text(deps_command(device)) + "`, but received unexpected stdout: `"@ + out + "`"@,
            ),
        }
    }
}

/// The partition that a mapped device is on.
pub open spec fn underlying<H: Host>(m: Grown<H>, device: Seq<char>) -> (Grown<H>, Result<Seq<char>, Seq<char>>) {
    let (m1, out) = run::<H>(m, deps_command(device));
    (
        m1,
        match out {
            Err(e) => Err(error_text(e)),
            Ok(o) => sole_dependency(o.0, device),
        },
    )
}

fn get_underlying_partition<H: Host>(host: &mut H, blockdev: &str) -> (r: Result<String, String>)
    ensures
        (final(host).machine(), text_result(r)) == underlying::<H>(old(host).machine(), blockdev@),
{
    let command = argv4("dmsetup", "deps", "--options=devname", blockdev);
    let dep = match run_of(host, &command) {
        Ok(out) => out.0,
        Err(e) => return Err(e.to_text()),
    };
    if !starts_with(dep.as_str(), "1 depend") {
        return Err(cat2("Expecting '1 dependencies' from 'dmsetup'. Received: ", dep.as_str()));
    }
    match split_at_first(dep.as_str(), ": (") {
        Some((_, rest)) => {
            proof {
                reveal_strlit(")");
            }
            let parts = split_on(rest.as_str(), ")");
            assert(texts(parts@)[0] == parts@[0]@);
            Ok(cat2("/dev/", parts[0].as_str()))
        },
        None => Err(
            cat5(
                "Ran `",
                py_list(&command).as_str(),
                "`, but received unexpected stdout: `",
                dep.as_str(),
                "`",
            ),
        ),
    }
}

/// The key and the slot in a key file, once it is read as JSON.
pub open spec fn key_in(parsed: Val) -> Option<(Seq<u8>, Seq<char>)> {
    match parsed {
        Val::Object(m) => match (get(m, "key"@), get(m, "slot"@)) {
            (Some(Val::Text(key)), Some(slot)) => match decoded(key) {
                Some(bytes) => Some((bytes, show(slot))),
                None => None,
            },
            _ => None,
        },
        _ => None,
    }
}

pub open spec fn key_pair(r: Option<(Vec<u8>, String)>) -> Option<(Seq<u8>, Seq<char>)> {
    match r {
        Some(p) => Some((p.0@, p.1@)),
        None => None,
    }
}

/// The key and the slot in a parsed key file.
pub fn key_from(parsed: &Node) -> (r: Option<(Vec<u8>, String)>)
    ensures
        key_pair(r) == key_in(parsed@),
{
    match parsed {
        Node::Object(o) => match (o.get("key"), o.get("slot")) {
            (Some(Node::Text(key)), Some(slot)) => match decode(key.as_str()) {
                Some(bytes) => Some((bytes, py_str(slot))),
                None => None,
            },
            _ => None,
        },
        _ => None,
    }
}

/// The key and the slot in the text of a key file.
pub open spec fn key_of(raw: Result<Seq<char>, Seq<char>>) -> Option<(Seq<u8>, Seq<char>)> {
    match raw {
        Err(_) => None,
        Ok(text) => match json_of(text) {
            Err(_) => None,
            Ok(parsed) => key_in(parsed),
        },
    }
}

/// Kills the slot of a key and removes the file the key was in. That either cannot be
/// done is said in the log.
pub open spec fn key_dropped<H: Host>(m: Grown<H>, partition: Seq<char>, slot: Seq<char>) -> Grown<H> {
    let (m1, killed) = run::<H>(m, seq!["cryptsetup"@, "luksKillSlot"@, "--batch-mode"@, partition, slot]);
    let m2 = match killed {
        Ok(_) => m1,
        Err(e) => warned::<H>(
            m1,
            "Failed to kill luks slot after resizing encrypted volume: "@ + error_text(e),
        ),
    };
    let (m3, removed) = ask_unlink_keydata::<H>(m2);
    match removed {
        Ok(()) => m3,
        Err(_) => failure_told::<H>(m3, "Failed to remove keyfile after resizing encrypted volume"@),
    }
}

fn drop_key<H: Host>(host: &mut H, partition: &str, slot: &str)
    ensures
        final(host).machine() == key_dropped::<H>(old(host).machine(), partition@, slot@),
{
    match run_of(host, &argv5("cryptsetup", "luksKillSlot", "--batch-mode", partition, slot)) {
        Ok(_) => {},
        Err(e) => {
            let text = cat2("Failed to kill luks slot after resizing encrypted volume: ", e.to_text().as_str());
            log_warn(host, text.as_str());
        },
    }
    if host.unlink_keydata().is_err() {
        log_failure(host, "Failed to remove keyfile after resizing encrypted volume");
    }
}

/// Grows an encrypted volume with the key in the key file. Once the key was used,
/// its slot is killed and the file removed, whatever came of the resize.
pub open spec fn grow_encrypted<H: Host>(m: Grown<H>, device: Seq<char>, partition: Seq<char>) -> (
    Grown<H>,
    Result<(Resize, Seq<char>), Seq<char>>,
) {
    let (m1, raw) = ask_read_keydata::<H>(m);
    match raw {
        None => (m1, Ok((Resize::Skipped, "No encryption keyfile found"@))),
        Some(raw) => match key_of(raw) {
            None => (
                m1,
                Err(
                    "Could not load encryption key. This is expected if the volume has been previously resized."@,
                ),
            ),
            Some((key, slot)) => {
                let (m2, resized) = ask_subp::<H>(
                    m1,
                    seq!["cryptsetup"@, "--key-file"@, "-"@, "resize"@, device],
                    Seq::empty(),
                    Some(key),
                );
                (
                    key_dropped::<H>(m2, partition, slot),
                    match resized {
                        Err(e) => Err(error_text(e)),
                        Ok(_) => Ok(
                            (Resize::Changed, "Successfully resized encrypted volume '"@ + device + "'"@),
                        ),
                    },
                )
            },
        },
    }
}

pub open spec fn action_result(r: Result<(Resize, String), String>) -> Result<(Resize, Seq<char>), Seq<char>> {
    match r {
        Ok(p) => Ok((p.0, p.1@)),
        Err(e) => Err(e@),
    }
}

pub fn resize_encrypted<H: Host>(host: &mut H, blockdev: &str, partition: &str) -> (r: Result<(Resize, String), String>)
    ensures
        (final(host).machine(), action_result(r)) == grow_encrypted::<H>(
            old(host).machine(),
            blockdev@,
            partition@,
        ),
{
    let raw = match host.read_keydata() {
        Some(raw) => raw,
        None => return Ok((Resize::Skipped, "No encryption keyfile found".to_owned())),
    };
    let loaded: Option<(Vec<u8>, String)> = match raw {
        Ok(text) => match parse_json(text.as_str()) {
            Ok(parsed) => key_from(&parsed),
            Err(_) => None,
        },
        Err(_) => None,
    };
    let (key, slot) = match loaded {
        Some(pair) => pair,
        None => {
            return Err(
                "Could not load encryption key. This is expected if the volume has been previously resized.".to_owned(),
            );
        },
    };
    let env: Vec<(String, String)> = Vec::new();
    assert(text_table(env@) =~= Seq::empty());
    let resized = host.subp(&argv5("cryptsetup", "--key-file", "-", "resize", blockdev), &env, Some(&key));
    drop_key(host, partition, slot.as_str());
    match resized {
        Err(e) => Err(e.to_text()),
        Ok(_) => Ok((Resize::Changed, cat3("Successfully resized encrypted volume '", blockdev, "'"))),
    }
}

/// What became of a mapped device: it is done with, or its partition comes first.
pub enum Mapped {
    Done(Resize, String),
    Requeue(String),
}

/// The mathematical form of a [`Mapped`].
pub enum MappedSpec {
    Done(Resize, Seq<char>),
    Requeue(Seq<char>),
}

pub open spec fn mapped_result(r: Result<Mapped, String>) -> Result<MappedSpec, Seq<char>> {
    match r {
        Ok(Mapped::Done(a, m)) => Ok(MappedSpec::Done(a, m@)),
        Ok(Mapped::Requeue(p)) => Ok(MappedSpec::Requeue(p@)),
        Err(e) => Err(e@),
    }
}

/// Whether an entry was dealt with already.
pub open spec fn seen(info: Seq<Row>, entry: Seq<char>) -> bool {
    exists|i: int| 0 <= i < info.len() && (#[trigger] info[i]).devent == Val::Text(entry)
}

fn has_seen(info: &Vec<Outcome>, entry: &str) -> (r: bool)
    ensures
        r == seen(outcomes(info@), entry@),
{
    let ghost all = outcomes(info@);
    let mut i: usize = 0;
    while i < info.len()
        invariant
            i <= info@.len(),
            all == outcomes(info@),
            forall|j: int| 0 <= j < i ==> (#[trigger] all[j]).devent != Val::Text(entry@),
        decreases info.len() - i,
    {
        assert(all[i as int].devent == info@[i as int].devent@);
        if let Node::Text(s) = &info[i].devent {
            if same(s.as_str(), entry) {
                return true;
            }
        }
        i += 1;
    }
    false
}

/// Grows a mapped device. Only an encrypted volume is grown, and only when its
/// partition was dealt with.
pub open spec fn grow_mapped<H: Host>(m: Grown<H>, device: Seq<char>, node: Seq<char>, info: Seq<Row>) -> (
    Grown<H>,
    Result<MappedSpec, Seq<char>>,
) {
    let (m1, partition) = underlying::<H>(m, device);
    match partition {
        Err(e) => (m1, Err(e)),
        Ok(partition) => {
            let (m2, luks) = encrypted::<H>(m1, node, partition);
            if !luks {
                (
                    m2,
                    Ok(
                        MappedSpec::Done(
                            Resize::Skipped,
                            "Resizing mapped device ("@ + device + ") skipped as it is not encrypted."@,
                        ),
                    ),
                )
            } else if !seen(info, partition) {
                (m2, Ok(MappedSpec::Requeue(partition)))
            } else {
                let (m3, done) = grow_encrypted::<H>(m2, device, partition);
                (
                    m3,
                    match done {
                        Err(e) => Err(e),
                        Ok((action, message)) => Ok(MappedSpec::Done(action, message)),
                    },
                )
            }
        },
    }
}

pub fn resize_mapped<H: Host>(host: &mut H, blockdev: &str, node: &str, info: &Vec<Outcome>) -> (r: Result<Mapped, String>)
    ensures
        (final(host).machine(), mapped_result(r)) == grow_mapped::<H>(
            old(host).machine(),
            blockdev@,
            node@,
            outcomes(info@),
        ),
{
    let partition = match get_underlying_partition(host, blockdev) {
        Ok(partition) => partition,
        Err(e) => return Err(e),
    };
    if !is_encrypted(host, node, partition.as_str()) {
        return Ok(
            Mapped::Done(
                Resize::Skipped,
                cat3("Resizing mapped device (", blockdev, ") skipped as it is not encrypted."),
            ),
        );
    }
    if !has_seen(info, partition.as_str()) {
        return Ok(Mapped::Requeue(partition));
    }
    match resize_encrypted(host, blockdev, partition.as_str()) {
        Ok((action, message)) => Ok(Mapped::Done(action, message)),
        Err(e) => Err(e),
    }
}

// ---------------------------------------------------------------------------
// Calling the tool

pub open spec fn or_none(o: Option<Seq<char>>) -> Seq<char> {
    match o {
        Some(s) => s,
        None => "None"@,
    }
}

fn or_none_of(o: Option<&str>) -> (r: String)
    ensures
        r@ == or_none(opt_str(o)),
{
    match o {
        Some(s) => s.to_owned(),
        None => "None".to_owned(),
    }
}

pub open spec fn size_text(size: Option<u64>) -> Seq<char> {
    match size {
        Some(n) => dec(n as nat),
        None => "None"@,
    }
}

fn show_size(size: Option<u64>) -> (r: String)
    ensures
        r@ == size_text(size),
{
    match size {
        Some(n) => dec_of(n as u128),
        None => "None".to_owned(),
    }
}

/// What sizes before and after are reported as.
pub open spec fn size_message(disk: Option<Seq<char>>, number: Option<Seq<char>>, device: Seq<char>, sizes: Sizes) -> Seq<char> {
    let both = or_none(disk) + ", "@ + or_none(number);
    let what = if disk is Some && number is None {
        both
    } else {
        device
    };
    if sizes.0 == sizes.1 {
        "no change necessary ("@ + both + ")"@
    } else if sizes.0 is None || sizes.1 is None {
        "changed ("@ + what + ") size, new size is unknown"@
    } else {
        "changed ("@ + what + ") from "@ + size_text(sizes.0) + " to "@ + size_text(sizes.1)
    }
}

fn size_message_of(disk: Option<&str>, number: Option<&str>, device: &str, sizes: Sizes) -> (r: String)
    ensures
        r@ == size_message(opt_str(disk), opt_str(number), device@, sizes),
{
    let both = cat3(or_none_of(disk).as_str(), ", ", or_none_of(number).as_str());
    let what = if disk.is_some() && number.is_none() {
        both.as_str()
    } else {
        device
    };
    let unchanged = match (sizes.0, sizes.1) {
        (Some(a), Some(b)) => a == b,
        (None, None) => true,
        _ => false,
    };
    if unchanged {
        cat3("no change necessary (", both.as_str(), ")")
    } else if sizes.0.is_none() || sizes.1.is_none() {
        cat3("changed (", what, ") size, new size is unknown")
    } else {
        cat6(
            "changed (",
            what,
            ") from ",
            show_size(sizes.0).as_str(),
            " to ",
            show_size(sizes.1).as_str(),
        )
    }
}

/// Grows the device of an entry and says what came of it.
pub open spec fn call_tool<H: Host>(
    m: Grown<H>,
    tool: Resizer,
    devent: Val,
    disk: Option<Seq<char>>,
    number: Option<Seq<char>>,
    device: Seq<char>,
    fs: Option<Seq<char>>,
) -> (Grown<H>, Result<Row, Seq<char>>) {
    let (m1, sizes) = grow::<H>(m, tool, or_none(disk), or_none(number), device, fs);
    (
        m1,
        match sizes {
            Err(ResizeFailure::Fatal(e)) => Err(e),
            Err(ResizeFailure::Failed(e)) => Ok(
                Row {
                    devent,
                    action: Resize::Failed,
                    message: "failed to resize: disk="@ + or_none(disk) + ", ptnum="@ + or_none(number) + ": "@ + e,
                },
            ),
            Ok(sizes) => Ok(
                Row {
                    devent,
                    action: if sizes.0 == sizes.1 {
                        Resize::Nochange
                    } else {
                        Resize::Changed
                    },
                    message: size_message(disk, number, device, sizes),
                },
            ),
        },
    )
}

pub open spec fn outcome_result(r: Result<Outcome, String>) -> Result<Row, Seq<char>> {
    match r {
        Ok(o) => Ok(o@),
        Err(e) => Err(e@),
    }
}

pub fn call_resizer<H: Host>(
    host: &mut H,
    resizer: Resizer,
    devent: &Node,
    disk: Option<&str>,
    ptnum: Option<&str>,
    blockdev: &str,
    fs: Option<&str>,
) -> (r: Result<Outcome, String>)
    ensures
        (final(host).machine(), outcome_result(r)) == call_tool::<H>(
            old(host).machine(),
            resizer,
            devent@,
            opt_str(disk),
            opt_str(ptnum),
            blockdev@,
            opt_str(fs),
        ),
{
    let disk_text = or_none_of(disk);
    let number_text = or_none_of(ptnum);
    match resizer.resize(host, disk_text.as_str(), number_text.as_str(), blockdev, fs) {
        Err(ResizeError::Fatal(e)) => Err(e),
        Err(ResizeError::Failed(e)) => Ok(
            Outcome {
                devent: devent.clone(),
                action: Resize::Failed,
                message: cat6(
                    "failed to resize: disk=",
                    disk_text.as_str(),
                    ", ptnum=",
                    number_text.as_str(),
                    ": ",
                    e.as_str(),
                ),
            },
        ),
        Ok(sizes) => {
            let unchanged = match (sizes.0, sizes.1) {
                (Some(a), Some(b)) => a == b,
                (None, None) => true,
                _ => false,
            };
            Ok(
                Outcome {
                    devent: devent.clone(),
                    action: if unchanged {
                        Resize::Nochange
                    } else {
                        Resize::Changed
                    },
                    message: size_message_of(disk, ptnum, blockdev, sizes),
                },
            )
        },
    }
}

// ---------------------------------------------------------------------------
// One round

/// Whether a file mode is that of a block or a character device.
pub open spec fn is_device_mode(mode: u32) -> bool {
    mode & 0o170000u32 == 0o060000u32 || mode & 0o170000u32 == 0o020000u32
}

/// What a round with one entry comes to.
pub enum Round {
    /// The entry is done with.
    Row(Outcome),
    /// The entry waits for another.
    Wait(String),
}

/// The mathematical form of a [`Round`].
pub enum RoundSpec {
    Row(Row),
    Wait(Seq<char>),
}

pub open spec fn round_result(r: Result<Round, String>) -> Result<RoundSpec, Seq<char>> {
    match r {
        Ok(Round::Row(o)) => Ok(RoundSpec::Row(o@)),
        Ok(Round::Wait(p)) => Ok(RoundSpec::Wait(p@)),
        Err(e) => Err(e@),
    }
}

pub open spec fn skipped(devent: Val, message: Seq<char>) -> Result<RoundSpec, Seq<char>> {
    Ok(RoundSpec::Row(Row { devent, action: Resize::Skipped, message }))
}

/// A row from a tool, or its failure.
pub open spec fn as_row(r: Result<Row, Seq<char>>) -> Result<RoundSpec, Seq<char>> {
    match r {
        Ok(row) => Ok(RoundSpec::Row(row)),
        Err(e) => Err(e),
    }
}

/// What a mapped device comes to.
pub open spec fn mapped_round(devent: Val, device: Seq<char>, done: Result<MappedSpec, Seq<char>>) -> Result<
    RoundSpec,
    Seq<char>,
> {
    match done {
        Ok(MappedSpec::Done(action, message)) => Ok(RoundSpec::Row(Row { devent, action, message })),
        Ok(MappedSpec::Requeue(partition)) => Ok(RoundSpec::Wait(partition)),
        Err(e) => Ok(
            RoundSpec::Row(
                Row {
                    devent,
                    action: Resize::Failed,
                    message: "Resizing encrypted device ("@ + device + ") failed: "@ + e,
                },
            ),
        ),
    }
}

/// A round with an entry whose device is known.
pub open spec fn device_round<H: Host>(
    m: Grown<H>,
    tool: Resizer,
    devent: Val,
    device: Seq<char>,
    fs: Option<Seq<char>>,
    info: Seq<Row>,
) -> (Grown<H>, Result<RoundSpec, Seq<char>>) {
    if fs == Some("zfs"@) && tool == Resizer::GrowFS {
        let (m1, row) = call_tool::<H>(m, tool, devent, None, None, device, fs);
        (m1, as_row(row))
    } else {
        let (m1, mode) = ask_stat_mode::<H>(m, device);
        match mode {
            Err(e) => (m1, skipped(devent, "stat of '"@ + device + "' failed: "@ + e)),
            Ok(mode) => if !is_device_mode(mode) {
                (m1, skipped(devent, "device '"@ + device + "' not a block device"@))
            } else {
                let (m2, node) = mapped_node::<H>(m1, device);
                match node {
                    Some(node) => {
                        let (m3, done) = grow_mapped::<H>(m2, device, node, info);
                        (m3, mapped_round(devent, device, done))
                    },
                    None => {
                        let (m3, part) = part_info::<H>(m2, device);
                        match part {
                            Err(NoPart::Skip(e)) => (
                                m3,
                                skipped(devent, "device_part_info("@ + device + ") failed: "@ + e),
                            ),
                            Err(NoPart::Fatal(e)) => (m3, Err(e)),
                            Ok((disk, number)) => {
                                let (m4, row) = call_tool::<H>(
                                    m3,
                                    tool,
                                    devent,
                                    Some(disk),
                                    Some(number),
                                    device,
                                    fs,
                                );
                                (m4, as_row(row))
                            },
                        }
                    },
                }
            },
        }
    }
}

/// A round with an entry.
pub open spec fn round<H: Host>(m: Grown<H>, tool: Resizer, devent: Val, info: Seq<Row>) -> (
    Grown<H>,
    Result<RoundSpec, Seq<char>>,
) {
    let (m1, device) = entry_device::<H>(m, devent);
    match device {
        Err(NoDevice::Value(e)) => (m1, skipped(devent, "unable to convert to device: "@ + e)),
        Err(NoDevice::Fatal(e)) => (m1, Err(e)),
        Ok((device, fs)) => device_round::<H>(
            logged::<H>(m1, "growpart found fs="@ + or_none(fs)),
            tool,
            devent,
            device,
            fs,
            info,
        ),
    }
}

fn skip_row(devent: &Node, message: String) -> (r: Result<Round, String>)
    ensures
        round_result(r) == skipped(devent@, message@),
{
    Ok(Round::Row(Outcome { devent: devent.clone(), action: Resize::Skipped, message }))
}

pub fn resize_device<H: Host>(
    host: &mut H,
    resizer: Resizer,
    devent: &Node,
    blockdev: &str,
    fs: Option<&str>,
    info: &Vec<Outcome>,
) -> (r: Result<Round, String>)
    ensures
        (final(host).machine(), round_result(r)) == device_round::<H>(
            old(host).machine(),
            resizer,
            devent@,
            blockdev@,
            opt_str(fs),
            outcomes(info@),
        ),
{
    let zfs = match fs {
        Some(fs) => same(fs, "zfs"),
        None => false,
    };
    if zfs && resizer == Resizer::GrowFS {
        return match call_resizer(host, resizer, devent, None, None, blockdev, fs) {
            Ok(row) => Ok(Round::Row(row)),
            Err(e) => Err(e),
        };
    }
    let mode = match host.stat_mode(blockdev) {
        Ok(mode) => mode,
        Err(e) => return skip_row(devent, cat4("stat of '", blockdev, "' failed: ", e.as_str())),
    };
    let kind: u32 = mode & 0o170000u32;
    if kind != 0o060000u32 && kind != 0o020000u32 {
        return skip_row(devent, cat3("device '", blockdev, "' not a block device"));
    }
    if let Some(node) = get_mapped_device(host, blockdev) {
        return match resize_mapped(host, blockdev, node.as_str(), info) {
            Ok(Mapped::Done(action, message)) => Ok(
                Round::Row(Outcome { devent: devent.clone(), action, message }),
            ),
            Ok(Mapped::Requeue(partition)) => Ok(Round::Wait(partition)),
            Err(e) => Ok(
                Round::Row(
                    Outcome {
                        devent: devent.clone(),
                        action: Resize::Failed,
                        message: cat4("Resizing encrypted device (", blockdev, ") failed: ", e.as_str()),
                    },
                ),
            ),
        };
    }
    match device_part_info(host, blockdev) {
        Err(PartError::Skip(e)) => skip_row(
            devent,
            cat4("device_part_info(", blockdev, ") failed: ", e.as_str()),
        ),
        Err(PartError::Fatal(e)) => Err(e),
        Ok((disk, number)) => match call_resizer(
            host,
            resizer,
            devent,
            Some(disk.as_str()),
            Some(number.as_str()),
            blockdev,
            fs,
        ) {
            Ok(row) => Ok(Round::Row(row)),
            Err(e) => Err(e),
        },
    }
}

fn resize_entry<H: Host>(host: &mut H, resizer: Resizer, devent: &Node, info: &Vec<Outcome>) -> (r: Result<Round, String>)
    ensures
        (final(host).machine(), round_result(r)) == round::<H>(
            old(host).machine(),
            resizer,
            devent@,
            outcomes(info@),
        ),
{
    match devent2dev(host, devent) {
        Err(DevError::Value(e)) => skip_row(devent, cat2("unable to convert to device: ", e.as_str())),
        Err(DevError::Fatal(e)) => Err(e),
        Ok((blockdev, fs)) => {
            let fs_text = match &fs {
                Some(s) => Some(s.as_str()),
                None => None,
            };
            log_debug(host, cat2("growpart found fs=", or_none_of(fs_text).as_str()).as_str());
            resize_device(host, resizer, devent, blockdev.as_str(), fs_text, info)
        },
    }
}

// ---------------------------------------------------------------------------
// All rounds

/// The rounds with the entries of a queue, at most `fuel` of them. An entry that
/// waits stays in the queue behind the one it waits for.
pub open spec fn rounds<H: Host>(
    m: Grown<H>,
    tool: Resizer,
    queue: Seq<Val>,
    info: Seq<Row>,
    fuel: nat,
) -> (Grown<H>, Result<Seq<Row>, Seq<char>>)
    decreases fuel,
{
    if queue.len() == 0 {
        (m, Ok(info))
    } else if fuel == 0 {
        (m, Err("the devices depend on each other without end"@))
    } else {
        let (m1, done) = round::<H>(m, tool, queue[0], info);
        match done {
            Err(e) => (m1, Err(e)),
            Ok(RoundSpec::Row(row)) => rounds::<H>(m1, tool, queue.skip(1), info.push(row), (fuel - 1) as nat),
            Ok(RoundSpec::Wait(partition)) => rounds::<H>(
                m1,
                tool,
                seq![Val::Text(partition)] + queue,
                info,
                (fuel - 1) as nat,
            ),
        }
    }
}

pub open spec fn rows_result(r: Result<Vec<Outcome>, String>) -> Result<Seq<Row>, Seq<char>> {
    match r {
        Ok(v) => Ok(outcomes(v@)),
        Err(e) => Err(e@),
    }
}

/// Grows device after device. The number of rounds is bounded only by the largest
/// 64-bit number; devices that depend on each other in a circle come to that.
pub fn resize_devices<H: Host>(host: &mut H, resizer: Resizer, devices: &Vec<Node>) -> (r: Result<Vec<Outcome>, String>)
    ensures
        (final(host).machine(), rows_result(r)) == rounds::<H>(
            old(host).machine(),
            resizer,
            vals(devices@),
            Seq::empty(),
            u64::MAX as nat,
        ),
{
    broadcast use {vals_push, outcomes_push};
    let mut fuel: u64 = u64::MAX;
    // The entries still to come, the next one last.
    let mut stack: Vec<Node> = Vec::new();
    let mut i: usize = devices.len();
    let ghost all = vals(devices@);
    while i > 0
        invariant
            i <= devices@.len(),
            all == vals(devices@),
            stack@.len() + i == devices@.len(),
            forall|j: int| 0 <= j < stack@.len() ==> #[trigger] vals(stack@)[j] == all[all.len() - 1 - j],
        decreases i,
    {
        i -= 1;
        let ghost before = vals(stack@);
        let node = devices[i].clone();
        stack.push(node);
        assert(vals(stack@) =~= before.push(all[i as int]));
    }
    assert(vals(stack@).reverse() =~= all);
    let mut info: Vec<Outcome> = Vec::new();
    assert(outcomes(info@) =~= Seq::empty());
    let ghost m0 = host.machine();
    loop
        invariant
            m0 == old(host).machine(),
            all == vals(devices@),
            rounds::<H>(host.machine(), resizer, vals(stack@).reverse(), outcomes(info@), fuel as nat) == rounds::<H>(
                m0,
                resizer,
                all,
                Seq::empty(),
                u64::MAX as nat,
            ),
        decreases fuel,
    {
        let ghost queue = vals(stack@).reverse();
        let n = stack.len();
        if n == 0 {
            assert(queue.len() == 0);
            return Ok(info);
        }
        assert(queue[0] == stack@[n - 1]@);
        if fuel == 0 {
            return Err("the devices depend on each other without end".to_owned());
        }
        fuel -= 1;
        match resize_entry(host, resizer, &stack[n - 1], &info) {
            Err(e) => return Err(e),
            Ok(Round::Row(row)) => {
                let ghost before = outcomes(info@);
                let _ = stack.pop();
                info.push(row);
                assert(outcomes(info@) =~= before.push(row@));
                assert(vals(stack@).reverse() =~= queue.skip(1));
            },
            Ok(Round::Wait(partition)) => {
                let ghost before = vals(stack@);
                let waited = Node::Text(partition);
                stack.push(waited);
                assert(vals(stack@) =~= before.push(waited@));
                assert(vals(stack@).reverse() =~= seq![waited@] + queue);
            },
        }
    }
}

// ---------------------------------------------------------------------------
// Laws

/// A key is used once: whatever came of the resize, its slot is killed and then the
/// file it was in is removed, and after that nothing happens but lines in the log.
pub proof fn a_key_is_used_once<H: Host>(
    m: Grown<H>,
    device: Seq<char>,
    partition: Seq<char>,
    raw: Result<Seq<char>, Seq<char>>,
)
    requires
        ask_read_keydata::<H>(m).1 == Some(raw),
        key_of(raw) is Some,
    ensures
        ({
            let calls = grow_encrypted::<H>(m, device, partition).0.calls;
            let n = m.calls.len() as int;
            &&& calls[n + 2] matches Call::Subp { argv, .. } && argv == seq![
                "cryptsetup"@,
                "luksKillSlot"@,
                "--batch-mode"@,
                partition,
                (key_of(raw)->0).1,
            ]
            &&& calls.contains(Call::UnlinkKeydata)
            &&& forall|i: int|
                n + 2 < i < calls.len() ==> #[trigger] calls[i] == Call::UnlinkKeydata || calls[i] is Report
        }),
{
    let calls = grow_encrypted::<H>(m, device, partition).0.calls;
    let n = m.calls.len() as int;
    assert(calls[n + 3] == Call::UnlinkKeydata || calls[n + 4] == Call::UnlinkKeydata);
}

/// Without a key nothing is resized: the machine is asked for the key alone.
pub proof fn no_key_asks_nothing_more<H: Host>(m: Grown<H>, device: Seq<char>, partition: Seq<char>)
    requires
        ask_read_keydata::<H>(m).1 is None || key_of(ask_read_keydata::<H>(m).1->0) is None,
    ensures
        grow_encrypted::<H>(m, device, partition).0 == ask_read_keydata::<H>(m).0,
{
}

/// Every entry has its outcome: what was known stays, and there are at least as many
/// outcomes more as there were entries.
pub proof fn every_entry_has_an_outcome<H: Host>(m: Grown<H>, tool: Resizer, queue: Seq<Val>, info: Seq<Row>, fuel: nat)
    requires
        rounds::<H>(m, tool, queue, info, fuel).1 is Ok,
    ensures
        rounds::<H>(m, tool, queue, info, fuel).1->Ok_0.len() >= info.len() + queue.len(),
        rounds::<H>(m, tool, queue, info, fuel).1->Ok_0.take(info.len() as int) == info,
    decreases fuel,
{
    if queue.len() == 0 {
        assert(info.take(info.len() as int) =~= info);
    } else if fuel > 0 {
        let (m1, done) = round::<H>(m, tool, queue[0], info);
        match done {
            Err(_) => {},
            Ok(RoundSpec::Row(row)) => {
                every_entry_has_an_outcome::<H>(m1, tool, queue.skip(1), info.push(row), (fuel - 1) as nat);
                let rows = rounds::<H>(m, tool, queue, info, fuel).1->Ok_0;
                assert(rows.take(info.len() as int) =~= rows.take(info.push(row).len() as int).take(
                    info.len() as int,
                ));
                assert(info.push(row).take(info.len() as int) =~= info);
            },
            Ok(RoundSpec::Wait(partition)) => {
                every_entry_has_an_outcome::<H>(
                    m1,
                    tool,
                    seq![Val::Text(partition)] + queue,
                    info,
                    (fuel - 1) as nat,
                );
            },
        }
    }
}

}
