//! What is promised of growing the root file system.

use vstd::prelude::*;

use crate::cc::resizefs::{
    behind_root, btrfs_command, btrfs_plan, btrfs_target, checked_path, device_grown, first_disk, full_path,
    is_device_mode, is_switched_on, is_writable, pool_disk, reported_version, resize_done, resize_run, resize_setting,
    root_device, root_grown, writable_path,
};
use crate::cc::resizefs::host::{ask_is_dir, ask_mount_opts, logged, Call, Disk, Host, MountSpec, StatFailure};
use crate::cc::version::Version;
use crate::rootdev::root_of;
use crate::show::{show, truthy};
use crate::space::{fold, trim, trim_start, words, Class};
use crate::text::{find_from_is_first, head, holds, stands_at, starts};
use crate::text::laws::{first_found, last_found};
use crate::value::{get, Val};

verus! {

proof fn begins_with(s: Seq<char>, p: Seq<char>)
    requires
        starts(s, p),
        p.len() > 0,
    ensures
        s.len() > 0,
        s[0] == p[0],
{
    assert(s.subrange(0, p.len() as int)[0] == p[0]);
}

proof fn kinds_differ(name: Seq<char>)
    ensures
        starts(name, "ext"@) ==> !starts(name, "btrfs"@) && !starts(name, "ufs"@),
        starts(name, "xfs"@) ==> !starts(name, "btrfs"@) && !starts(name, "ext"@) && !starts(name, "ufs"@),
        starts(name, "ufs"@) ==> !starts(name, "btrfs"@) && !starts(name, "ext"@) && !starts(name, "xfs"@),
        starts(name, "zfs"@) ==> !starts(name, "btrfs"@) && !starts(name, "ext"@) && !starts(name, "xfs"@) && !starts(
            name,
            "ufs"@,
        ),
        starts(name, "hammer2"@) ==> !starts(name, "btrfs"@) && !starts(name, "ext"@) && !starts(name, "xfs"@) && !starts(
            name,
            "ufs"@,
        ) && !starts(name, "zfs"@),
        starts(name, "bcachefs"@) ==> !starts(name, "btrfs"@) && !starts(name, "ext"@) && !starts(name, "xfs"@) && !starts(
            name,
            "ufs"@,
        ) && !starts(name, "zfs"@) && !starts(name, "hammer2"@),
        starts(name, "btrfs"@) ==> !starts(name, "ufs"@),
{
    reveal_strlit("btrfs");
    reveal_strlit("ext");
    reveal_strlit("xfs");
    reveal_strlit("ufs");
    reveal_strlit("zfs");
    reveal_strlit("hammer2");
    reveal_strlit("bcachefs");
    if starts(name, "ext"@) {
        begins_with(name, "ext"@);
    }
    if starts(name, "xfs"@) {
        begins_with(name, "xfs"@);
    }
    if starts(name, "ufs"@) {
        begins_with(name, "ufs"@);
    }
    if starts(name, "zfs"@) {
        begins_with(name, "zfs"@);
    }
    if starts(name, "hammer2"@) {
        begins_with(name, "hammer2"@);
    }
    if starts(name, "btrfs"@) {
        begins_with(name, "btrfs"@);
        assert(name.subrange(0, 5)[1] == "btrfs"@[1]);
    }
    if starts(name, "bcachefs"@) {
        begins_with(name, "bcachefs"@);
        assert(name.subrange(0, 8)[1] == "bcachefs"@[1]);
    }
}

/// Whether, behind a line of the log, the first thing that is asked of a machine is a
/// command.
pub open spec fn runs_first<H: Host>(before: Disk<H>, after: Disk<H>, argv: Seq<Seq<char>>) -> bool {
    let n = before.calls.len() as int;
    &&& after.calls.len() >= n + 2
    &&& after.calls.take(n) == before.calls
    &&& after.calls[n] is Report
    &&& after.calls[n + 1] == Call::Subp(argv)
}

/// Each kind of file system is grown by its own command: some take the device, some the
/// mount point, and a pool takes its name and the device.
pub proof fn each_kind_has_its_command<H: Host>(m: Disk<H>, fs_type: Seq<char>, what: Seq<char>, device: Seq<char>, setting: Val)
    requires
        setting != Val::Text("noblock"@),
    ensures
        ({
            let after = device_grown::<H>(m, fs_type, what, device, setting).0;
            let name = fold(fs_type);
            &&& starts(name, "ext"@) ==> runs_first::<H>(m, after, seq!["resize2fs"@, device])
            &&& starts(name, "xfs"@) ==> runs_first::<H>(m, after, seq!["xfs_growfs"@, what])
            &&& starts(name, "zfs"@) ==> runs_first::<H>(m, after, seq!["zpool"@, "online"@, "-e"@, what, device])
            &&& starts(name, "hammer2"@) ==> runs_first::<H>(m, after, seq!["hammer2"@, "growfs"@, what])
            &&& starts(name, "bcachefs"@) ==> runs_first::<H>(m, after, seq!["bcachefs"@, "device"@, "resize"@, device])
        }),
{
    kinds_differ(fold(fs_type));
    let after = device_grown::<H>(m, fs_type, what, device, setting).0;
    assert(starts(fold(fs_type), "ext"@) || starts(fold(fs_type), "xfs"@) || starts(fold(fs_type), "zfs"@) || starts(
        fold(fs_type),
        "hammer2"@,
    ) || starts(fold(fs_type), "bcachefs"@) ==> after.calls.take(m.calls.len() as int) =~= m.calls);
}

/// The file system of BSD is first asked whether it can grow at all: it is grown by its
/// mount point, unless it says that it is large enough.
pub proof fn ufs_is_asked_first<H: Host>(m: Disk<H>, fs_type: Seq<char>, what: Seq<char>, device: Seq<char>, setting: Val)
    requires
        starts(fold(fs_type), "ufs"@),
        setting != Val::Text("noblock"@),
    ensures
        ({
            let (after, done) = device_grown::<H>(m, fs_type, what, device, setting);
            let call = Call::Subp(seq!["growfs"@, "-N"@, device]);
            let out = H::reply(m.world, call).1->Output_0;
            let n = m.calls.len() as int;
            &&& after.calls[n] == call
            &&& out is Ok ==> after.calls[n + 1] is Report && after.calls[n + 2] == Call::Subp(
                seq!["growfs"@, "-y"@, what],
            )
            &&& out matches Err(e) ==> {
                let enough = starts(e.stderr, "growfs: requested size"@) && holds(
                    e.stderr,
                    "is not larger than the current filesystem size"@,
                );
                &&& enough ==> done is Ok && after.calls.len() == n + 2 && after.calls[n + 1] is Report
                &&& !enough ==> done is Err && after.calls.len() == n + 1
            }
        }),
{
    kinds_differ(fold(fs_type));
}

/// A btrfs file system that can be written is grown at its mount point. One that cannot
/// is grown at its snapshots, where it has some.
pub proof fn what_is_grown_of_btrfs<H: Host>(m: Disk<H>, mount_point: Seq<char>, opts: Seq<char>)
    requires
        ask_mount_opts::<H>(m, mount_point).1 == Some(opts),
    ensures
        head(opts, ","@) == "rw"@ ==> btrfs_target::<H>(m, mount_point).1 == Ok::<Seq<char>, Seq<char>>(mount_point),
        head(opts, ","@) != "rw"@ ==> btrfs_target::<H>(m, mount_point).1 == Ok::<Seq<char>, Seq<char>>(
            if ask_is_dir::<H>(ask_mount_opts::<H>(m, mount_point).0, mount_point + "/.snapshots"@).1 {
                mount_point + "/.snapshots"@
            } else {
                mount_point
            },
        ),
{
}

/// From version 5.10 on, growing a btrfs file system waits for what else is going on.
pub proof fn the_command_for_btrfs(target: Seq<char>, version: Version)
    requires
        version.patch >= -1,
        version.rev >= -1,
    ensures
        version.major > 5 || (version.major == 5 && version.minor >= 10) ==> btrfs_command(target, version) == seq![
            "btrfs"@,
            "filesystem"@,
            "resize"@,
            "--enqueue"@,
            "max"@,
            target,
        ],
        version.major < 5 || (version.major == 5 && version.minor < 10) ==> btrfs_command(target, version) == seq![
            "btrfs"@,
            "filesystem"@,
            "resize"@,
            "max"@,
            target,
        ],
{
}

/// The tool for btrfs is asked for its version, and for nothing else.
pub proof fn the_version_of_btrfs_is_asked<H: Host>(m: Disk<H>, mount_point: Seq<char>)
    ensures
        btrfs_plan::<H>(m, mount_point).1 is Ok ==> btrfs_plan::<H>(m, mount_point).0.calls.last() == Call::Subp(
            seq!["btrfs"@, "--version"@],
        ),
{
}

/// Where growing must not block, the command is handed over, and is not run here.
pub proof fn not_blocking_hands_the_command_over<H: Host>(m: Disk<H>, command: Seq<Seq<char>>, fs_type: Seq<char>)
    ensures
        ({
            let after = resize_run::<H>(m, command, fs_type, Val::Text("noblock"@)).0;
            let n = m.calls.len() as int;
            &&& after.calls.len() == n + 2
            &&& after.calls[n] == Call::Fork(command)
            &&& after.calls[n + 1] is Report
        }),
        forall|setting: Val|
            setting != Val::Text("noblock"@) ==> (#[trigger] resize_run::<H>(m, command, fs_type, setting)).0.calls[m.calls.len() as int]
                == Call::Subp(command),
{
}

/// What switches growing on: a plain yes, or one of five words in any case.
pub proof fn what_switches_growing_on(v: Val)
    ensures
        is_switched_on(Val::Bool(true)),
        !is_switched_on(Val::Bool(false)),
        !is_switched_on(Val::Null),
        v is Text ==> (is_switched_on(v) <==> truthy(v) && {
            let s = trim(Class::Space, fold(v->Text_0));
            ||| s == "true"@
            ||| s == "1"@
            ||| s == "on"@
            ||| s == "yes"@
            ||| s == "noblock"@
        }),
{
}

/// An argument decides before the configuration does, and without either the file system
/// is grown.
pub proof fn an_argument_decides(cfg: Seq<(Seq<char>, Val)>, first: Val, more: Seq<Val>)
    ensures
        resize_setting(cfg, Val::Array(seq![first] + more)) == first,
        get(cfg, "resize_rootfs"@) matches Some(v) ==> resize_setting(cfg, Val::Array(Seq::empty())) == Val::Text(show(v)),
        get(cfg, "resize_rootfs"@) is None ==> resize_setting(cfg, Val::Array(Seq::empty())) == Val::Bool(true),
{
}

/// Only what is mounted at the root is grown: of a pool, by its name, on the disk it is
/// on; of anything else, the root on the device that is mounted there.
pub proof fn the_root_is_grown<H: Host>(m: Disk<H>, mount: MountSpec, setting: Val)
    requires
        mount.fs_type != "zfs"@,
    ensures
        ({
            let info = "dev="@ + mount.devpth + " mnt_point="@ + mount.mount_point + " path="@ + "/"@;
            let (m1, path) = writable_path::<H>(logged::<H>(m, "resize_info: "@ + info), mount.devpth, info);
            match path {
                Ok(Some(path)) => root_grown::<H>(m, mount, setting) == device_grown::<H>(
                    m1,
                    mount.fs_type,
                    "/"@,
                    path,
                    setting,
                ),
                Ok(None) => root_grown::<H>(m, mount, setting) == (m1, Ok::<(), Seq<char>>(())),
                Err(e) => root_grown::<H>(m, mount, setting) == (m1, Err::<(), Seq<char>>(e)),
            }
        }),
{
}

/// A pool is grown by the part of its name before the first slash, on the disk that it
/// says it is on.
pub proof fn a_pool_is_grown_by_its_name<H: Host>(m: Disk<H>, mount: MountSpec, setting: Val, disk: Seq<char>)
    requires
        mount.fs_type == "zfs"@,
        pool_disk::<H>(m, head(mount.devpth, "/"@)).1 == Some(disk),
    ensures
        ({
            let pool = head(mount.devpth, "/"@);
            let info = "dev="@ + disk + " mnt_point="@ + mount.mount_point + " path="@ + pool;
            let (m1, path) = writable_path::<H>(
                logged::<H>(pool_disk::<H>(m, pool).0, "resize_info: "@ + info),
                disk,
                info,
            );
            path matches Ok(Some(path)) ==> root_grown::<H>(m, mount, setting) == device_grown::<H>(
                m1,
                "zfs"@,
                pool,
                path,
                setting,
            )
        }),
{
}

/// The disk of a pool is on the first line of its state that says it is there and is
/// neither the pool's own line nor that of its state.
pub proof fn the_disk_of_a_pool(lines: Seq<Seq<char>>, pool: Seq<char>) -> (i: int)
    ensures
        match first_disk(lines, pool) {
            Some(disk) => {
                &&& 0 <= i < lines.len()
                &&& holds(lines[i], "ONLINE"@) && !holds(lines[i], pool) && !holds(lines[i], "state"@)
                &&& words(Class::Space, lines[i]).len() > 0 ==> disk == words(
                    Class::Space,
                    lines[i],
                )[0]
                &&& forall|j: int| 0 <= j < i ==> !holds(#[trigger] lines[j], "ONLINE"@) || holds(lines[j], pool) || holds(
                    lines[j],
                    "state"@,
                )
            },
            None => forall|j: int|
                0 <= j < lines.len() ==> !holds(#[trigger] lines[j], "ONLINE"@) || holds(lines[j], pool) || holds(
                    lines[j],
                    "state"@,
                ),
        },
    decreases lines.len(),
{
    if lines.len() == 0 {
        0
    } else if holds(lines[0], "ONLINE"@) && !holds(lines[0], pool) && !holds(lines[0], "state"@) {
        0
    } else {
        let i = the_disk_of_a_pool(lines.skip(1), pool);
        assert forall|j: int| 0 <= j < lines.len() && (first_disk(lines, pool) is Some ==> j < i + 1) implies !holds(
            #[trigger] lines[j],
            "ONLINE"@,
        ) || holds(lines[j], pool) || holds(lines[j], "state"@) by {
            if j > 0 {
                assert(lines.skip(1)[j - 1] == lines[j]);
            }
        }
        i + 1
    }
}

/// The kind of a file stands in the four bits above the twelve of its mode: six is a
/// block device and two a character device, and only these can be grown.
pub proof fn the_kind_of_a_file(mode: u32)
    ensures
        is_device_mode(mode) <==> (mode / 4096) % 16 == 6 || (mode / 4096) % 16 == 2,
{
    assert((mode & 0o170000) == 0o060000 <==> (mode / 4096) % 16 == 6) by (bit_vector);
    assert((mode & 0o170000) == 0o020000 <==> (mode / 4096) % 16 == 2) by (bit_vector);
}

/// A path is used exactly if it is that of a device; that it is not, or that it is not
/// there, is no failure.
pub proof fn only_a_device_is_used<H: Host>(m: Disk<H>, path: Seq<char>, container: bool, info: Seq<char>)
    ensures
        ({
            let mode = H::reply(m.world, Call::StatMode(path)).1->Mode_0;
            let r = checked_path::<H>(m, path, container, info).1;
            &&& mode matches Ok(bits) ==> r == Ok::<Option<Seq<char>>, Seq<char>>(
                if is_device_mode(bits) {
                    Some(path)
                } else {
                    None
                },
            )
            &&& mode == Err::<u32, StatFailure>(StatFailure::NotFound) ==> r == Ok::<Option<Seq<char>>, Seq<char>>(None)
        }),
{
}

/// A name that is not under `/dev` and is not there as it stands is looked for under
/// `/dev`.
pub proof fn a_name_is_looked_for_under_dev<H: Host>(m: Disk<H>, path: Seq<char>)
    ensures
        starts(path, "/dev/"@) ==> full_path::<H>(m, path) == (m, path),
        !starts(path, "/dev/"@) && H::reply(m.world, Call::Exists(path)).1->Flag_0 ==> full_path::<H>(m, path).1 == path,
        !starts(path, "/dev/"@) && !H::reply(m.world, Call::Exists(path)).1->Flag_0 ==> full_path::<H>(m, path).1 == "/dev/"@
            + trim_start(Class::One('/'), path),
{
}

/// An overlay is never grown, and nothing but whether this is a container is asked of it.
pub proof fn an_overlay_is_not_grown<H: Host>(m: Disk<H>, info: Seq<char>)
    ensures
        writable_path::<H>(m, "overlayroot"@, info).1 == Ok::<Option<Seq<char>>, Seq<char>>(None),
        writable_path::<H>(m, "overlayroot"@, info).0.calls.len() == m.calls.len() + 2,
        writable_path::<H>(m, "overlayroot"@, info).0.calls[m.calls.len() as int] == Call::IsContainer,
{
    reveal_strlit("overlayroot");
    reveal_strlit("/dev/root");
    assert("overlayroot"@.len() != "/dev/root"@.len());
}

/// A file system is mounted to be written where that is the first of its options.
pub proof fn the_first_option_says_writable<H: Host>(m: Disk<H>, mount_point: Seq<char>, rest: Seq<char>)
    ensures
        ({
            let ask = Call::MountOpts(mount_point);
            let (m1, r) = is_writable::<H>(m, mount_point);
            let opts = H::reply(m.world, ask).1->Found_0;
            &&& m1.calls == m.calls.push(ask)
            &&& opts is None ==> r is Err
            &&& opts == Some("rw"@) ==> r == Ok::<bool, Seq<char>>(true)
            &&& opts == Some("ro"@ + ","@ + rest) ==> r == Ok::<bool, Seq<char>>(false)
        }),
{
    reveal_strlit("rw");
    reveal_strlit("ro");
    reveal_strlit(",");
    let comma = ","@;
    let a = "rw"@;
    assert forall|j: int| !stands_at(a, comma, j) by {
        if stands_at(a, comma, j) {
            assert(a.subrange(j, j + 1)[0] == ',');
        }
    }
    find_from_is_first(a, comma, 0);
    let b = "ro"@ + ","@ + rest;
    assert forall|j: int| 0 <= j < 2 implies !stands_at(b, comma, j) by {
        if stands_at(b, comma, j) {
            assert(b.subrange(j, j + 1)[0] == ',');
            assert(b[j] == "ro"@[j]);
        }
    }
    assert(b.subrange(2, 3) =~= comma);
    first_found(b, comma, 0, 2);
    assert(b.take(2) =~= "ro"@);
    assert("ro"@[1] == 'o' && "rw"@[1] == 'w');
}

/// A device with a name of its own is that; outside a container the command line names
/// what is behind the general one.
pub proof fn what_is_behind_the_root<H: Host>(m: Disk<H>, path: Seq<char>)
    ensures
        path != "/dev/root"@ ==> behind_root::<H>(m, path, false) == (m, Some(path))
            && behind_root::<H>(m, path, true) == (m, Some(path)),
        behind_root::<H>(m, "/dev/root"@, true).1 == Some("/dev/root"@),
        ({
            let ask = Call::Exists("/dev/root"@);
            let (m1, r) = behind_root::<H>(m, "/dev/root"@, false);
            let (w, a) = H::reply(m.world, ask);
            let n = m.calls.len() as int;
            &&& m1.calls[n] == ask
            &&& a->Flag_0 ==> r == Some("/dev/root"@) && m1.calls.len() == n + 1
            &&& !a->Flag_0 ==> m1.calls[n + 1] == Call::CmdLine
        }),
{
}

/// The command is run once, and a failure of it is one.
pub proof fn the_command_is_run_once<H: Host>(m: Disk<H>, command: Seq<Seq<char>>)
    ensures
        ({
            let run = Call::Subp(command);
            let (m1, r) = resize_done::<H>(m, command);
            let out = H::reply(m.world, run).1->Output_0;
            &&& m1.calls[m.calls.len() as int] == run
            &&& out is Ok ==> r is Ok && m1.calls == m.calls.push(run)
            &&& out is Err ==> r is Err
        }),
{
}

/// A root that is named by the identifier of its partition is the path of that where it is
/// there, and else the first device that is found.
pub proof fn a_root_is_found_by_its_partition<H: Host>(m: Disk<H>, cmdline: Seq<char>, path: Seq<char>, criterion: Seq<char>)
    requires
        root_of(cmdline) == crate::rootdev::RootSpec::Partition(path, criterion),
    ensures
        ({
            let (m1, r) = root_device::<H>(m, cmdline);
            let look = Call::Exists(path);
            let (w, a) = H::reply(m.world, look);
            &&& m1.calls[m.calls.len() as int] == look
            &&& a->Flag_0 ==> r == Some(path) && m1.calls == m.calls.push(look)
            &&& !a->Flag_0 ==> m1.calls.len() == m.calls.len() + 2 && r is Some
        }),
{
}

/// The version of a tool stands behind the last `v` of its first line.
pub proof fn the_version_is_behind_the_v(name: Seq<char>, version: Seq<char>, rest: Seq<char>)
    requires
        !name.contains('\n'),
        !version.contains('\n'),
        !version.contains('v'),
    ensures
        reported_version(name + seq!['v'] + version + "\n"@ + rest) == trim(
            crate::space::Class::Space,
            version,
        ),
{
    reveal_strlit("\n");
    let feed = "\n"@;
    let first = name + seq!['v'] + version;
    let out = name + seq!['v'] + version + "\n"@ + rest;
    let n = first.len() as int;
    assert forall|j: int| 0 <= j < n implies !stands_at(out, feed, j) by {
        if stands_at(out, feed, j) {
            assert(out.subrange(j, j + 1)[0] == '\n');
            if j < name.len() {
                assert(out[j] == name[j]);
            } else if j > name.len() {
                assert(out[j] == version[j - name.len() - 1]);
            }
        }
    }
    assert(out.subrange(n, n + 1) =~= feed);
    first_found(out, feed, 0, n);
    assert(out.take(n) =~= first);
    last_found(name, 'v', version);
}

} // verus!
