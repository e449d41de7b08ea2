//! Growing the root file system to fill its device.

use vstd::prelude::*;

use crate::cc::growpart::error_text;
use crate::cc::resizefs::host::{
    ask_cmdline, ask_find_devs_with, ask_fork_resize, ask_is_container, ask_is_dir, ask_mount_info, ask_mount_opts,
    ask_path_exists, ask_stat_mode, ask_subp, failure_told, informed, log_debug, log_failure, log_info, log_warn, logged,
    warned, Disk, MountSpec, StatFailure,
};
use crate::cc::version::{is_older, lenient_version, older, read_version, Version};
use crate::cc::{text_result, texts_result, unit_result};
use crate::rootdev::{root_from_cmdline, root_of, Root, RootSpec};
use crate::show::{py_str, py_truthy, show, truthy};
use crate::space::{fold, fold_of, trim, trim_of, trim_start, trim_start_of, words, words_of, Class};
use crate::text::{
    argv2, argv3, argv4, argv5, argv6, cat2, cat3, cat4, cat5, cat6, contains, head, head_of, holds, join, join_with,
    opt_text, replace, replaced, rsplit_at, rsplit_once, same, split, split_on, starts, starts_with, texts,
    texts_push,
};
use crate::value::{get, vals, Node, Object, Val};

pub mod host;
pub mod laws;

pub use crate::cc::growpart::CommandResult;
pub use crate::cc::resizefs::host::{Fixture, Host, Mount, StatError};

verus! {

/// A tool that grows a kind of file system.
#[derive(Debug, Clone, Copy, PartialEq, Eq, Structural)]
pub enum Resizer {
    Btrfs,
    Ext,
    Xfs,
    Ufs,
    Zfs,
    Hammer2,
    Bcachefs,
}

// ---------------------------------------------------------------------------
// btrfs

/// Whether a file system is mounted to be written. Its options must be known.
pub open spec fn is_writable<H: Host>(m: Disk<H>, mount_point: Seq<char>) -> (Disk<H>, Result<bool, Seq<char>>) {
    let (m1, opts) = ask_mount_opts::<H>(m, mount_point);
    (
        m1,
        match opts {
            None => Err("'NoneType' object is not subscriptable"@),
            Some(opts) => Ok(head(opts, ","@) == "rw"@),
        },
    )
}

/// What is grown of a file system: a subvolume of it, where it cannot be written
/// itself and has one.
pub open spec fn btrfs_target<H: Host>(m: Disk<H>, mount_point: Seq<char>) -> (Disk<H>, Result<Seq<char>, Seq<char>>) {
    let (m1, writable) = is_writable::<H>(m, mount_point);
    match writable {
        Err(e) => (m1, Err(e)),
        Ok(true) => (m1, Ok(mount_point)),
        Ok(false) => {
            let snapshots = mount_point + "/.snapshots"@;
            let (m2, there) = ask_is_dir::<H>(m1, snapshots);
            (
                m2,
                Ok(
                    if there {
                        snapshots
                    } else {
                        mount_point
                    },
                ),
            )
        },
    }
}

/// The version in what the tool prints of itself: behind the last `v` of the first
/// line.
pub open spec fn reported_version(out: Seq<char>) -> Seq<char> {
    let first = head(out, "\n"@);
    trim(
        Class::Space,
        match rsplit_once(first, 'v') {
            Some((_, version)) => version,
            None => first,
        },
    )
}

/// Whether a version lets a resize wait for another.
pub open spec fn can_enqueue(version: Version) -> bool {
    !older(version, Version { major: 5, minor: 10, patch: (-1) as i64, rev: (-1) as i64 })
}

/// The command that grows a btrfs file system.
pub open spec fn btrfs_command(target: Seq<char>, version: Version) -> Seq<Seq<char>> {
    if can_enqueue(version) {
        seq!["btrfs"@, "filesystem"@, "resize"@, "--enqueue"@, "max"@, target]
    } else {
        seq!["btrfs"@, "filesystem"@, "resize"@, "max"@, target]
    }
}

/// The command that grows a btrfs file system, which depends on the tool's
/// version.
pub open spec fn btrfs_plan<H: Host>(m: Disk<H>, mount_point: Seq<char>) -> (
    Disk<H>,
    Result<Seq<Seq<char>>, Seq<char>>,
) {
    let (m1, target) = btrfs_target::<H>(m, mount_point);
    match target {
        Err(e) => (m1, Err(e)),
        Ok(target) => {
            let (m2, out) = ask_subp::<H>(m1, seq!["btrfs"@, "--version"@]);
            (
                m2,
                match out {
                    Err(e) => Err(error_text(e)),
                    Ok((out, _)) => match lenient_version(reported_version(out)) {
                        Err(e) => Err(e),
                        Ok(version) => Ok(btrfs_command(target, version)),
                    },
                },
            )
        },
    }
}

fn btrfs_target_of<H: Host>(mount_point: &str, host: &mut H) -> (r: Result<String, String>)
    ensures
        (final(host).machine(), text_result(r)) == btrfs_target::<H>(old(host).machine(), mount_point@),
{
    let opts = match host.mount_opts(mount_point) {
        Some(opts) => opts,
        None => return Err("'NoneType' object is not subscriptable".to_owned()),
    };
    if same(head_of(opts.as_str(), ",").as_str(), "rw") {
        return Ok(mount_point.to_owned());
    }
    let snapshots = cat2(mount_point, "/.snapshots");
    if host.is_dir(snapshots.as_str()) {
        Ok(snapshots)
    } else {
        Ok(mount_point.to_owned())
    }
}

fn resize_btrfs<H: Host>(mount_point: &str, host: &mut H) -> (r: Result<Vec<String>, String>)
    ensures
        (final(host).machine(), texts_result(r)) == btrfs_plan::<H>(old(host).machine(), mount_point@),
{
    let target = match btrfs_target_of(mount_point, host) {
        Ok(target) => target,
        Err(e) => return Err(e),
    };
    let (out, _) = match host.subp(&argv2("btrfs", "--version")) {
        Ok(pair) => pair,
        Err(e) => return Err(e.to_text()),
    };
    let first = head_of(out.as_str(), "\n");
    let version = match rsplit_at(first.as_str(), 'v') {
        Some((_, version)) => version,
        None => first,
    };
    let reported = trim_of(Class::Space, version.as_str());
    match read_version(reported.as_str()) {
        Err(e) => Err(e),
        Ok(version) => {
            let queue = Version { major: 5, minor: 10, patch: -1, rev: -1 };
            if is_older(version, queue) {
                Ok(argv5("btrfs", "filesystem", "resize", "max", target.as_str()))
            } else {
                Ok(argv6("btrfs", "filesystem", "resize", "--enqueue", "max", target.as_str()))
            }
        },
    }
}

// ---------------------------------------------------------------------------
// The command

/// The tool for a kind of file system, by how its name begins without regard to
/// case.
pub open spec fn tool_for(fs_type: Seq<char>) -> Option<Resizer> {
    let name = fold(fs_type);
    if starts(name, "btrfs"@) {
        Some(Resizer::Btrfs)
    } else if starts(name, "ext"@) {
        Some(Resizer::Ext)
    } else if starts(name, "xfs"@) {
        Some(Resizer::Xfs)
    } else if starts(name, "ufs"@) {
        Some(Resizer::Ufs)
    } else if starts(name, "zfs"@) {
        Some(Resizer::Zfs)
    } else if starts(name, "hammer2"@) {
        Some(Resizer::Hammer2)
    } else if starts(name, "bcachefs"@) {
        Some(Resizer::Bcachefs)
    } else {
        None
    }
}

pub fn resizer_for(fs_type: &str) -> (r: Option<Resizer>)
    ensures
        r == tool_for(fs_type@),
{
    let name = fold_of(fs_type);
    let name = name.as_str();
    if starts_with(name, "btrfs") {
        Some(Resizer::Btrfs)
    } else if starts_with(name, "ext") {
        Some(Resizer::Ext)
    } else if starts_with(name, "xfs") {
        Some(Resizer::Xfs)
    } else if starts_with(name, "ufs") {
        Some(Resizer::Ufs)
    } else if starts_with(name, "zfs") {
        Some(Resizer::Zfs)
    } else if starts_with(name, "hammer2") {
        Some(Resizer::Hammer2)
    } else if starts_with(name, "bcachefs") {
        Some(Resizer::Bcachefs)
    } else {
        None
    }
}

/// The command with which a tool grows a file system.
pub open spec fn tool_command<H: Host>(m: Disk<H>, tool: Resizer, mount_point: Seq<char>, device: Seq<char>) -> (
    Disk<H>,
    Result<Seq<Seq<char>>, Seq<char>>,
) {
    match tool {
        Resizer::Btrfs => btrfs_plan::<H>(m, mount_point),
        Resizer::Ext => (m, Ok(seq!["resize2fs"@, device])),
        Resizer::Xfs => (m, Ok(seq!["xfs_growfs"@, mount_point])),
        Resizer::Ufs => (m, Ok(seq!["growfs"@, "-y"@, mount_point])),
        Resizer::Zfs => (m, Ok(seq!["zpool"@, "online"@, "-e"@, mount_point, device])),
        Resizer::Hammer2 => (m, Ok(seq!["hammer2"@, "growfs"@, mount_point])),
        Resizer::Bcachefs => (m, Ok(seq!["bcachefs"@, "device"@, "resize"@, device])),
    }
}

impl Resizer {
    pub fn command<H: Host>(self, mount_point: &str, devpth: &str, host: &mut H) -> (r: Result<Vec<String>, String>)
        ensures
            (final(host).machine(), texts_result(r)) == tool_command::<H>(
                old(host).machine(),
                self,
                mount_point@,
                devpth@,
            ),
    {
        match self {
            Resizer::Btrfs => resize_btrfs(mount_point, host),
            Resizer::Ext => Ok(argv2("resize2fs", devpth)),
            Resizer::Xfs => Ok(argv2("xfs_growfs", mount_point)),
            Resizer::Ufs => Ok(argv3("growfs", "-y", mount_point)),
            Resizer::Zfs => Ok(argv5("zpool", "online", "-e", mount_point, devpth)),
            Resizer::Hammer2 => Ok(argv3("hammer2", "growfs", mount_point)),
            Resizer::Bcachefs => Ok(argv4("bcachefs", "device", "resize", devpth)),
        }
    }
}

/// Whether a failure says that the file system is large enough already.
pub open spec fn says_large_enough(stderr: Seq<char>) -> bool {
    starts(stderr, "growfs: requested size"@) && holds(
        stderr,
        "is not larger than the current filesystem size"@,
    )
}

/// Whether a file system need not be grown, which only one kind can tell.
pub open spec fn is_large_enough<H: Host>(m: Disk<H>, fs_type: Seq<char>, device: Seq<char>) -> (
    Disk<H>,
    Result<bool, Seq<char>>,
) {
    if !starts(fold(fs_type), "ufs"@) {
        (m, Ok(false))
    } else {
        let (m1, out) = ask_subp::<H>(m, seq!["growfs"@, "-N"@, device]);
        (
            m1,
            match out {
                Ok(_) => Ok(false),
                Err(e) => if says_large_enough(e.stderr) {
                    Ok(true)
                } else {
                    Err(error_text(e))
                },
            },
        )
    }
}

pub open spec fn flag_result(r: Result<bool, String>) -> Result<bool, Seq<char>> {
    match r {
        Ok(b) => Ok(b),
        Err(e) => Err(e@),
    }
}

fn can_skip_resize<H: Host>(fs_type: &str, devpth: &str, host: &mut H) -> (r: Result<bool, String>)
    ensures
        (final(host).machine(), flag_result(r)) == is_large_enough::<H>(old(host).machine(), fs_type@, devpth@),
{
    if !starts_with(fold_of(fs_type).as_str(), "ufs") {
        return Ok(false);
    }
    match host.subp(&argv3("growfs", "-N", devpth)) {
        Ok(_) => Ok(false),
        Err(e) => if starts_with(e.stderr.as_str(), "growfs: requested size") && contains(
            e.stderr.as_str(),
            "is not larger than the current filesystem size",
        ) {
            Ok(true)
        } else {
            Err(e.to_text())
        },
    }
}

// ---------------------------------------------------------------------------
// The device

/// Whether a line of a pool's state is for one of its disks that is there.
pub open spec fn is_disk_line(line: Seq<char>, pool: Seq<char>) -> bool {
    holds(line, "ONLINE"@) && !holds(line, pool) && !holds(line, "state"@)
}

/// The first disk that lines name.
pub open spec fn first_disk(lines: Seq<Seq<char>>, pool: Seq<char>) -> Option<Seq<char>>
    decreases lines.len(),
{
    if lines.len() == 0 {
        None
    } else if is_disk_line(lines[0], pool) {
        let fields = words(Class::Space, lines[0]);
        Some(
            if fields.len() > 0 {
                fields[0]
            } else {
                Seq::empty()
            },
        )
    } else {
        first_disk(lines.skip(1), pool)
    }
}

/// Something that is worth a warning, but not in a container.
pub open spec fn doubted<H: Host>(m: Disk<H>, container: bool, text: Seq<char>) -> Disk<H> {
    if container {
        logged::<H>(m, text)
    } else {
        warned::<H>(m, text)
    }
}

fn doubt<H: Host>(host: &mut H, container: bool, text: &str)
    ensures
        final(host).machine() == doubted::<H>(old(host).machine(), container, text@),
{
    if container {
        log_debug(host, text);
    } else {
        log_warn(host, text);
    }
}

/// The disk that a pool is on, as far as it can be found out. Why it cannot is said in
/// the log, more loudly where this is no container.
pub open spec fn pool_disk<H: Host>(m: Disk<H>, pool: Seq<char>) -> (Disk<H>, Option<Seq<char>>) {
    let (m1, container) = ask_is_container::<H>(m);
    let (m2, there) = ask_path_exists::<H>(m1, "/dev/zfs"@);
    if !there {
        (logged::<H>(m2, "Cannot get zpool info, no /dev/zfs"@), None)
    } else {
        let (m3, out) = ask_subp::<H>(m2, seq!["zpool"@, "status"@, pool]);
        match out {
            Err(e) => (
                doubted::<H>(m3, container, "Unable to get zpool status of "@ + pool + ": "@ + error_text(e)),
                None,
            ),
            Ok((status, err)) => if err.len() > 0 {
                (
                    informed::<H>(
                        m3,
                        "zpool status returned error: ["@ + err + "] for zpool ["@ + pool + "]"@,
                    ),
                    None,
                )
            } else {
                match first_disk(split(status, "\n"@), pool) {
                    Some(disk) => (
                        logged::<H>(m3, "found zpool \""@ + pool + "\" on disk "@ + disk),
                        Some(disk),
                    ),
                    None => (
                        doubted::<H>(
                            m3,
                            container,
                            "No zpool found: ["@ + pool + "]: out: ["@ + status + "] err: "@ + err,
                        ),
                        None,
                    ),
                }
            },
        }
    }
}

fn first_disk_of(status: &str, pool: &str) -> (r: Option<String>)
    ensures
        opt_text(r) == first_disk(split(status@, "\n"@), pool@),
{
    proof {
        reveal_strlit("\n");
    }
    let lines = split_on(status, "\n");
    let ghost all = texts(lines@);
    let mut i: usize = 0;
    assert(all.skip(0) =~= all);
    while i < lines.len()
        invariant
            i <= lines@.len(),
            all == texts(lines@),
            all == split(status@, "\n"@),
            first_disk(all.skip(i as int), pool@) == first_disk(all, pool@),
        decreases lines.len() - i,
    {
        let line = lines[i].as_str();
        assert(all.skip(i as int)[0] == line@);
        assert(all.skip(i as int).skip(1) =~= all.skip(i + 1));
        if contains(line, "ONLINE") && !contains(line, pool) && !contains(line, "state") {
            let fields = words_of(Class::Space, line);
            assert(texts(fields@).len() == fields@.len());
            if fields.len() > 0 {
                assert(texts(fields@)[0] == fields@[0]@);
                return Some(fields[0].clone());
            }
            let none = String::new();
            assert(none@ =~= Seq::empty());
            return Some(none);
        }
        i += 1;
    }
    None
}

fn device_info_from_zpool<H: Host>(zpool: &str, host: &mut H) -> (r: Option<String>)
    ensures
        (final(host).machine(), opt_text(r)) == pool_disk::<H>(old(host).machine(), zpool@),
{
    let container = host.is_container();
    if !host.path_exists("/dev/zfs") {
        log_debug(host, "Cannot get zpool info, no /dev/zfs");
        return None;
    }
    match host.subp(&argv3("zpool", "status", zpool)) {
        Err(e) => {
            let text = cat4("Unable to get zpool status of ", zpool, ": ", e.to_text().as_str());
            doubt(host, container, text.as_str());
            None
        },
        Ok((status, err)) => {
            if !err.as_str().is_empty() {
                log_info(
                    host,
                    cat5("zpool status returned error: [", err.as_str(), "] for zpool [", zpool, "]").as_str(),
                );
                return None;
            }
            match first_disk_of(status.as_str(), zpool) {
                Some(disk) => {
                    log_debug(host, cat4("found zpool \"", zpool, "\" on disk ", disk.as_str()).as_str());
                    Some(disk)
                },
                None => {
                    let text = cat6(
                        "No zpool found: [",
                        zpool,
                        "]: out: [",
                        status.as_str(),
                        "] err: ",
                        err.as_str(),
                    );
                    doubt(host, container, text.as_str());
                    None
                },
            }
        },
    }
}

/// The root device that a kernel command line names, on this machine.
pub open spec fn root_device<H: Host>(m: Disk<H>, cmdline: Seq<char>) -> (Disk<H>, Option<Seq<char>>) {
    match root_of(cmdline) {
        RootSpec::Unnamed => (m, None),
        RootSpec::At(path) => (m, Some(path)),
        RootSpec::Partition(path, criterion) => {
            let (m1, there) = ask_path_exists::<H>(m, path);
            if there {
                (m1, Some(path))
            } else {
                let (m2, devs) = ask_find_devs_with::<H>(m1, criterion);
                (
                    m2,
                    Some(
                        if devs.len() > 0 {
                            devs[0]
                        } else {
                            path
                        },
                    ),
                )
            }
        },
    }
}

fn rootdev_from_cmdline<H: Host>(cmdline: &str, host: &mut H) -> (r: Option<String>)
    ensures
        (final(host).machine(), opt_text(r)) == root_device::<H>(old(host).machine(), cmdline@),
{
    match root_from_cmdline(cmdline) {
        Root::Unnamed => None,
        Root::At(path) => Some(path),
        Root::Partition(path, criterion) => {
            if host.path_exists(path.as_str()) {
                return Some(path);
            }
            let devs = host.find_devs_with(criterion.as_str());
            if devs.len() > 0 {
                assert(texts(devs@)[0] == devs@[0]@);
                Some(devs[0].clone())
            } else {
                Some(path)
            }
        },
    }
}

/// The device behind `/dev/root`, which outside a container the kernel's command
/// line names where there is no such path.
pub open spec fn behind_root<H: Host>(m: Disk<H>, path: Seq<char>, container: bool) -> (Disk<H>, Option<Seq<char>>) {
    if path != "/dev/root"@ {
        (m, Some(path))
    } else {
        let (m1, there) = ask_path_exists::<H>(m, path);
        if there || container {
            (m1, Some(path))
        } else {
            let (m2, cmdline) = ask_cmdline::<H>(m1);
            let (m3, found) = root_device::<H>(m2, cmdline);
            match found {
                None => (warned::<H>(m3, "Unable to find device '/dev/root'"@), None),
                Some(device) => (
                    logged::<H>(m3, "Converted /dev/root to '"@ + device + "' per kernel cmdline"@),
                    Some(device),
                ),
            }
        }
    }
}

/// A path under `/dev`, unless it is one already or is there as it stands.
pub open spec fn full_path<H: Host>(m: Disk<H>, path: Seq<char>) -> (Disk<H>, Seq<char>) {
    if starts(path, "/dev/"@) {
        (m, path)
    } else {
        let (m1, there) = ask_path_exists::<H>(m, path);
        let full = "/dev/"@ + trim_start(Class::One('/'), path);
        if there {
            (m1, path)
        } else {
            (
                logged::<H>(
                    m1,
                    "'"@ + path + "' doesn't appear to be a valid device path. Trying '"@ + full + "'"@,
                ),
                full,
            )
        }
    }
}

/// Whether a mode is that of a block or a character device.
pub open spec fn is_device_mode(mode: u32) -> bool {
    (mode & 0o170000) == 0o060000 || (mode & 0o170000) == 0o020000
}

/// What is said of a path that is not there, or is no device.
pub open spec fn unusable_text(first: Seq<char>, path: Seq<char>, fault: Seq<char>, container: bool, info: Seq<char>) -> Seq<
    char,
> {
    first + path + fault + (if container {
        " in container. cannot resize: "@
    } else {
        ". cannot resize: "@
    }) + info
}

fn unusable(first: &str, path: &str, fault: &str, container: bool, info: &str) -> (r: String)
    ensures
        r@ == unusable_text(first@, path@, fault@, container, info@),
{
    let last = if container {
        " in container. cannot resize: "
    } else {
        ". cannot resize: "
    };
    cat5(first, path, fault, last, info)
}

/// A path whose mode shows a device. Of any other it is said why it cannot be used.
pub open spec fn checked_path<H: Host>(m: Disk<H>, path: Seq<char>, container: bool, info: Seq<char>) -> (
    Disk<H>,
    Result<Option<Seq<char>>, Seq<char>>,
) {
    let (m1, mode) = ask_stat_mode::<H>(m, path);
    match mode {
        Err(StatFailure::NotFound) => (
            doubted::<H>(m1, container, unusable_text("Device '"@, path, "' did not exist"@, container, info)),
            Ok(None),
        ),
        Err(StatFailure::Other(e)) => (m1, Err(e)),
        Ok(mode) => if is_device_mode(mode) {
            (m1, Ok(Some(path)))
        } else {
            (
                doubted::<H>(
                    m1,
                    container,
                    unusable_text("device '"@, path, "' not a block device"@, container, info),
                ),
                Ok(None),
            )
        },
    }
}

/// The path of a device that can be grown. A label is taken as it is.
pub open spec fn writable_path<H: Host>(m: Disk<H>, path: Seq<char>, info: Seq<char>) -> (
    Disk<H>,
    Result<Option<Seq<char>>, Seq<char>>,
) {
    let (m1, container) = ask_is_container::<H>(m);
    let (m2, device) = behind_root::<H>(m1, path, container);
    match device {
        None => (m2, Ok(None)),
        Some(device) => if device == "overlayroot"@ {
            (logged::<H>(m2, "Not attempting to resize devpath '"@ + device + "': "@ + info), Ok(None))
        } else if starts(device, "gpt/"@) {
            (logged::<H>(m2, "We have a gpt label - just go ahead"@), Ok(Some(device)))
        } else {
            let (m3, full) = full_path::<H>(m2, device);
            checked_path::<H>(m3, full, container, info)
        },
    }
}

pub open spec fn path_result(r: Result<Option<String>, String>) -> Result<Option<Seq<char>>, Seq<char>> {
    match r {
        Ok(o) => Ok(opt_text(o)),
        Err(e) => Err(e@),
    }
}

fn maybe_get_writable_device_path<H: Host>(devpath: &str, info: &str, host: &mut H) -> (r: Result<Option<String>, String>)
    ensures
        (final(host).machine(), path_result(r)) == writable_path::<H>(old(host).machine(), devpath@, info@),
{
    let container = host.is_container();
    let mut device = devpath.to_owned();
    if same(devpath, "/dev/root") {
        if !host.path_exists(devpath) && !container {
            let cmdline = host.cmdline();
            match rootdev_from_cmdline(cmdline.as_str(), host) {
                Some(found) => {
                    log_debug(
                        host,
                        cat3("Converted /dev/root to '", found.as_str(), "' per kernel cmdline").as_str(),
                    );
                    device = found;
                },
                None => {
                    log_warn(host, "Unable to find device '/dev/root'");
                    return Ok(None);
                },
            }
        }
    }
    if same(device.as_str(), "overlayroot") {
        log_debug(host, cat4("Not attempting to resize devpath '", device.as_str(), "': ", info).as_str());
        return Ok(None);
    }
    if starts_with(device.as_str(), "gpt/") {
        log_debug(host, "We have a gpt label - just go ahead");
        return Ok(Some(device));
    }
    if !starts_with(device.as_str(), "/dev/") {
        if !host.path_exists(device.as_str()) {
            let full = cat2("/dev/", trim_start_of(Class::One('/'), device.as_str()).as_str());
            log_debug(
                host,
                cat5(
                    "'",
                    device.as_str(),
                    "' doesn't appear to be a valid device path. Trying '",
                    full.as_str(),
                    "'",
                ).as_str(),
            );
            device = full;
        }
    }
    match host.stat_mode(device.as_str()) {
        Err(StatError::NotFound) => {
            let text = unusable("Device '", device.as_str(), "' did not exist", container, info);
            doubt(host, container, text.as_str());
            Ok(None)
        },
        Err(StatError::Other(e)) => Err(e),
        Ok(mode) => {
            let kind: u32 = mode & 0o170000;
            if kind == 0o060000 || kind == 0o020000 {
                Ok(Some(device))
            } else {
                let text = unusable("device '", device.as_str(), "' not a block device", container, info);
                doubt(host, container, text.as_str());
                Ok(None)
            }
        },
    }
}

// ---------------------------------------------------------------------------
// The module

/// A text between quotes.
pub open spec fn in_quotes(s: Seq<char>) -> Seq<char> {
    "'"@ + replaced(replaced(s, "\\"@, "\\\\"@), "'"@, "\\'"@) + "'"@
}

/// The words of a command as a tuple is printed.
pub open spec fn tuple_text(items: Seq<Seq<char>>) -> Seq<char> {
    let inner = Seq::new(items.len(), |i: int| in_quotes(items[i]));
    if items.len() == 1 {
        "("@ + join(inner, ""@) + ",)"@
    } else {
        "("@ + join(inner, ", "@) + ")"@
    }
}

fn py_tuple(items: &Vec<String>) -> (r: String)
    ensures
        r@ == tuple_text(texts(items@)),
{
    broadcast use texts_push;
    proof {
        reveal_strlit("\\");
        reveal_strlit("'");
    }
    let ghost all = texts(items@);
    let ghost want = Seq::new(all.len(), |i: int| in_quotes(all[i]));
    let mut parts: Vec<String> = Vec::new();
    let mut i: usize = 0;
    assert(texts(parts@) =~= want.take(0));
    while i < items.len()
        invariant
            i <= items@.len(),
            all == texts(items@),
            "\\"@.len() > 0,
            "'"@.len() > 0,
            want == Seq::new(all.len(), |i: int| in_quotes(all[i])),
            texts(parts@) == want.take(i as int),
        decreases items.len() - i,
    {
        assert(all[i as int] == items@[i as int]@);
        let escaped = replace(replace(items[i].as_str(), "\\", "\\\\").as_str(), "'", "\\'");
        parts.push(cat3("'", escaped.as_str(), "'"));
        i += 1;
        assert(want.take(i as int) =~= want.take(i - 1).push(want[i - 1]));
    }
    assert(want.take(i as int) =~= want);
    if items.len() == 1 {
        cat3("(", join_with(&parts, "").as_str(), ",)")
    } else {
        cat3("(", join_with(&parts, ", ").as_str(), ")")
    }
}

/// Grows a file system. A failure is said in the log and is an error.
pub open spec fn resize_done<H: Host>(m: Disk<H>, command: Seq<Seq<char>>) -> (Disk<H>, Result<(), Seq<char>>) {
    let (m1, out) = ask_subp::<H>(m, command);
    match out {
        Ok(_) => (m1, Ok(())),
        Err(e) => (
            failure_told::<H>(m1, "Failed to resize filesystem (cmd="@ + tuple_text(command) + ")"@),
            Err(error_text(e)),
        ),
    }
}

fn do_resize<H: Host>(command: &Vec<String>, host: &mut H) -> (r: Result<(), String>)
    ensures
        (final(host).machine(), unit_result(r)) == resize_done::<H>(old(host).machine(), texts(command@)),
{
    match host.subp(command) {
        Ok(_) => Ok(()),
        Err(e) => {
            log_failure(
                host,
                cat3("Failed to resize filesystem (cmd=", py_tuple(command).as_str(), ")").as_str(),
            );
            Err(e.to_text())
        },
    }
}

/// Grows a file system for whoever does not wait for it: a failure is said in the log
/// twice over, and nobody is told.
pub open spec fn resize_forked<H: Host>(m: Disk<H>, command: Seq<Seq<char>>) -> Disk<H> {
    let (m1, done) = resize_done::<H>(m, command);
    match done {
        Ok(()) => m1,
        Err(_) => failure_told::<H>(m1, "Failed forking and calling callback do_resize"@),
    }
}

/// Grows a file system for whoever does not wait for it.
pub fn forked_resize<H: Host>(command: &Vec<String>, host: &mut H)
    ensures
        final(host).machine() == resize_forked::<H>(old(host).machine(), texts(command@)),
{
    if do_resize(command, host).is_err() {
        log_failure(host, "Failed forking and calling callback do_resize");
    }
}

/// Whether growing is switched on. `noblock` switches it on too.
pub open spec fn is_switched_on(v: Val) -> bool {
    truthy(v) && (match v {
        Val::Bool(b) => b,
        _ => {
            let s = trim(Class::Space, fold(show(v)));
            s == "true"@ || s == "1"@ || s == "on"@ || s == "yes"@ || s == "noblock"@
        },
    })
}

pub fn translate_bool_noblock(value: &Node) -> (r: bool)
    ensures
        r == is_switched_on(value@),
{
    if !py_truthy(value) {
        return false;
    }
    match value {
        Node::Bool(b) => *b,
        _ => {
            let s = trim_of(Class::Space, fold_of(py_str(value).as_str()).as_str());
            let s = s.as_str();
            same(s, "true") || same(s, "1") || same(s, "on") || same(s, "yes") || same(s, "noblock")
        },
    }
}

/// What says whether to grow: the first argument, or the configuration.
pub open spec fn resize_setting(cfg: Seq<(Seq<char>, Val)>, args: Val) -> Val {
    match args {
        Val::Array(items) => if items.len() > 0 {
            items[0]
        } else {
            configured_setting(cfg)
        },
        _ => configured_setting(cfg),
    }
}

pub open spec fn configured_setting(cfg: Seq<(Seq<char>, Val)>) -> Val {
    match get(cfg, "resize_rootfs"@) {
        Some(v) => Val::Text(show(v)),
        None => Val::Bool(true),
    }
}

fn resize_setting_of(cfg: &Object, args: &Node) -> (r: Node)
    ensures
        r@ == resize_setting(cfg@, args@),
{
    if let Node::Array(items) = args {
        if items.len() > 0 {
            assert(vals(items@)[0] == items@[0]@);
            return items[0].clone();
        }
    }
    match cfg.get("resize_rootfs") {
        Some(v) => Node::Text(py_str(v)),
        None => Node::Bool(true),
    }
}

/// Whether nobody waits for the file system to have grown.
pub open spec fn is_noblock(setting: Val) -> bool {
    setting == Val::Text("noblock"@)
}

/// Runs the command that grows a file system. Where that must not block, what
/// comes of it is not waited for.
pub open spec fn resize_run<H: Host>(m: Disk<H>, command: Seq<Seq<char>>, fs_type: Seq<char>, setting: Val) -> (
    Disk<H>,
    Result<(), Seq<char>>,
) {
    let (m1, done) = if is_noblock(setting) {
        (ask_fork_resize::<H>(m, command), Ok(()))
    } else {
        resize_done::<H>(m, command)
    };
    match done {
        Err(e) => (m1, Err(e)),
        Ok(()) => (
            logged::<H>(
                m1,
                (if is_noblock(setting) {
                    "Resizing (via forking)"@
                } else {
                    "Resized"@
                }) + " root filesystem (type="@ + fs_type + ", val="@ + show(setting) + ")"@,
            ),
            Ok(()),
        ),
    }
}

/// Grows a file system on a device, unless it is large enough or of a kind that
/// there is no tool for.
pub open spec fn device_grown<H: Host>(
    m: Disk<H>,
    fs_type: Seq<char>,
    what: Seq<char>,
    device: Seq<char>,
    setting: Val,
) -> (Disk<H>, Result<(), Seq<char>>) {
    let (m1, enough) = is_large_enough::<H>(m, fs_type, device);
    match enough {
        Err(e) => (m1, Err(e)),
        Ok(true) => (
            logged::<H>(m1, "Skip resize filesystem type "@ + fs_type + " for "@ + what),
            Ok(()),
        ),
        Ok(false) => match tool_for(fs_type) {
            None => (
                warned::<H>(m1, "Not resizing unknown filesystem type "@ + fs_type + " for "@ + what),
                Ok(()),
            ),
            Some(tool) => {
                let (m2, command) = tool_command::<H>(m1, tool, what, device);
                match command {
                    Err(e) => (m2, Err(e)),
                    Ok(command) => resize_run::<H>(
                        logged::<H>(
                            m2,
                            "Resizing "@ + what + " ("@ + fs_type + ") using "@ + join(command, " "@),
                        ),
                        command,
                        fs_type,
                        setting,
                    ),
                }
            },
        },
    }
}

/// What is known of a file system that is to be grown.
pub open spec fn resize_info(device: Seq<char>, mount_point: Seq<char>, what: Seq<char>) -> Seq<char> {
    "dev="@ + device + " mnt_point="@ + mount_point + " path="@ + what
}

/// Grows what is mounted at the root. Of a pool, its name and its disk take the
/// place of the path and the device.
pub open spec fn root_grown<H: Host>(m: Disk<H>, mount: MountSpec, setting: Val) -> (Disk<H>, Result<(), Seq<char>>) {
    let pool = head(mount.devpth, "/"@);
    let (m1, device, what) = if mount.fs_type == "zfs"@ {
        let (m1, disk) = pool_disk::<H>(m, pool);
        (m1, disk, pool)
    } else {
        (m, Some(mount.devpth), "/"@)
    };
    match device {
        None => (m1, Ok(())),
        Some(device) => {
            let info = resize_info(device, mount.mount_point, what);
            let (m2, path) = writable_path::<H>(logged::<H>(m1, "resize_info: "@ + info), device, info);
            match path {
                Err(e) => (m2, Err(e)),
                Ok(None) => (m2, Ok(())),
                Ok(Some(path)) => device_grown::<H>(m2, mount.fs_type, what, path, setting),
            }
        },
    }
}

/// What is said where growing is switched off.
pub open spec fn off_text(name: Seq<char>) -> Seq<char> {
    "Skipping module named "@ + name + ", resizing disabled"@
}

/// Grows the root file system where that is switched on.
pub open spec fn grown<H: Host>(m: Disk<H>, name: Seq<char>, cfg: Seq<(Seq<char>, Val)>, args: Val) -> (
    Disk<H>,
    Result<(), Seq<char>>,
) {
    let setting = resize_setting(cfg, args);
    if !is_switched_on(setting) {
        (logged::<H>(m, off_text(name)), Ok(()))
    } else {
        let (m1, mount) = ask_mount_info::<H>(m, "/"@);
        match mount {
            None => (warned::<H>(m1, "Could not determine filesystem type of /"@), Ok(())),
            Some(mount) => root_grown::<H>(m1, mount, setting),
        }
    }
}

fn noblock_in(setting: &Node) -> (r: bool)
    ensures
        r == is_noblock(setting@),
{
    match setting {
        Node::Text(s) => same(s.as_str(), "noblock"),
        _ => false,
    }
}

fn run_resize<H: Host>(command: &Vec<String>, fs_type: &str, setting: &Node, host: &mut H) -> (r: Result<(), String>)
    ensures
        (final(host).machine(), unit_result(r)) == resize_run::<H>(
            old(host).machine(),
            texts(command@),
            fs_type@,
            setting@,
        ),
{
    let action = if noblock_in(setting) {
        host.fork_resize(command);
        "Resizing (via forking)"
    } else {
        match do_resize(command, host) {
            Ok(()) => {},
            Err(e) => return Err(e),
        }
        "Resized"
    };
    log_debug(
        host,
        cat6(action, " root filesystem (type=", fs_type, ", val=", py_str(setting).as_str(), ")").as_str(),
    );
    Ok(())
}

fn grow_device<H: Host>(fs_type: &str, what: &str, device: &str, setting: &Node, host: &mut H) -> (r: Result<(), String>)
    ensures
        (final(host).machine(), unit_result(r)) == device_grown::<H>(
            old(host).machine(),
            fs_type@,
            what@,
            device@,
            setting@,
        ),
{
    match can_skip_resize(fs_type, device, host) {
        Err(e) => return Err(e),
        Ok(enough) => if enough {
            log_debug(host, cat4("Skip resize filesystem type ", fs_type, " for ", what).as_str());
            return Ok(());
        },
    }
    let tool = match resizer_for(fs_type) {
        Some(tool) => tool,
        None => {
            log_warn(host, cat4("Not resizing unknown filesystem type ", fs_type, " for ", what).as_str());
            return Ok(());
        },
    };
    match tool.command(what, device, host) {
        Ok(command) => {
            log_debug(
                host,
                cat6("Resizing ", what, " (", fs_type, ") using ", join_with(&command, " ").as_str()).as_str(),
            );
            run_resize(&command, fs_type, setting, host)
        },
        Err(e) => Err(e),
    }
}

fn grow_root<H: Host>(mount: &Mount, setting: &Node, host: &mut H) -> (r: Result<(), String>)
    ensures
        (final(host).machine(), unit_result(r)) == root_grown::<H>(old(host).machine(), mount@, setting@),
{
    let mut device = mount.devpth.clone();
    let mut what = "/".to_owned();
    if same(mount.fs_type.as_str(), "zfs") {
        let pool = head_of(mount.devpth.as_str(), "/");
        match device_info_from_zpool(pool.as_str(), host) {
            Some(disk) => {
                device = disk;
            },
            None => return Ok(()),
        }
        what = pool;
    }
    let info = cat6("dev=", device.as_str(), " mnt_point=", mount.mount_point.as_str(), " path=", what.as_str());
    log_debug(host, cat2("resize_info: ", info.as_str()).as_str());
    match maybe_get_writable_device_path(device.as_str(), info.as_str(), host) {
        Err(e) => Err(e),
        Ok(None) => Ok(()),
        Ok(Some(path)) => grow_device(mount.fs_type.as_str(), what.as_str(), path.as_str(), setting, host),
    }
}

/// Grows the root file system where that is switched on.
pub fn handle_with<H: Host>(name: &str, cfg: &Object, args: &Node, host: &mut H) -> (r: Result<(), String>)
    ensures
        (final(host).machine(), unit_result(r)) == grown::<H>(old(host).machine(), name@, cfg@, args@),
{
    let setting = resize_setting_of(cfg, args);
    if !translate_bool_noblock(&setting) {
        log_debug(host, cat3("Skipping module named ", name, ", resizing disabled").as_str());
        return Ok(());
    }
    match host.mount_info("/") {
        Some(mount) => grow_root(&mount, &setting, host),
        None => {
            log_warn(host, "Could not determine filesystem type of /");
            Ok(())
        },
    }
}

// ---------------------------------------------------------------------------
// Laws

/// Where growing is switched off, all that happens is a line in the log that says so.
pub proof fn switched_off_asks_nothing<H: Host>(m: Disk<H>, name: Seq<char>, cfg: Seq<(Seq<char>, Val)>, args: Val)
    requires
        !is_switched_on(resize_setting(cfg, args)),
    ensures
        grown::<H>(m, name, cfg, args) == (logged::<H>(m, off_text(name)), Ok::<(), Seq<char>>(())),
{
}

/// A file system for which there is no tool is left alone, but for a warning.
pub proof fn unknown_kind_is_left_alone<H: Host>(
    m: Disk<H>,
    fs_type: Seq<char>,
    what: Seq<char>,
    device: Seq<char>,
    setting: Val,
)
    requires
        tool_for(fs_type) is None,
    ensures
        device_grown::<H>(m, fs_type, what, device, setting) == (
            warned::<H>(m, "Not resizing unknown filesystem type "@ + fs_type + " for "@ + what),
            Ok::<(), Seq<char>>(()),
        ),
{
}

/// Whoever does not wait learns of no failure: the module ends well whatever comes of
/// the command.
pub proof fn not_waiting_ends_well<H: Host>(m: Disk<H>, command: Seq<Seq<char>>, fs_type: Seq<char>, setting: Val)
    requires
        is_noblock(setting),
    ensures
        resize_run::<H>(m, command, fs_type, setting).1 is Ok,
{
}

}
